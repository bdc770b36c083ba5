use ibex_market::IbexCompany;

// A company that belongs to the Ibex35 and is Spanish (i.e. has a NIF).
fn spanish_company() -> IbexCompany {
    IbexCompany::new(
        Some("Banco Santander"),
        "SANTANDER",
        "SAN",
        "ES0113900J37",
        Some("A39000013"),
    )
}

// A company that belongs to the Ibex35 but is not registered in Spain
// (i.e. has no NIF).
fn foreign_company() -> IbexCompany {
    IbexCompany::new(
        Some("Ferrovial S.E."),
        "FERROVIAL",
        "FER",
        "NL0015001FS8",
        None,
    )
}

#[test]
fn test1_trait_impl() {
    let spanish_company = spanish_company();
    assert_eq!("Banco Santander", spanish_company.full_name().unwrap());
    assert_eq!("SANTANDER", spanish_company.name());
    assert_eq!("ES0113900J37", spanish_company.isin());
    assert_eq!("A39000013", spanish_company.extra_id().unwrap());
}

#[test]
fn test2_trait_impl() {
    let foreign_company = foreign_company();
    assert_eq!(None, foreign_company.extra_id());
}

// A company built with no extra identifier reports absent; one built with an
// extra identifier reports exactly that value.
#[test]
fn optional_fields_carried_exactly() {
    let with_id = spanish_company();
    assert_eq!(Some(&String::from("A39000013")), with_id.extra_id());
    let without_id = foreign_company();
    assert!(without_id.extra_id().is_none());

    let no_full_name = IbexCompany::new(None, "SANTANDER", "SAN", "ES0113900J37", None);
    assert!(no_full_name.full_name().is_none());
    assert_eq!("SANTANDER", no_full_name.name());
}

#[test]
fn render_one_line_form() {
    assert_eq!(spanish_company().render(), "SAN: SANTANDER");
    assert_eq!(foreign_company().render(), "FER: FERROVIAL");
}
