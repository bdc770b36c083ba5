use ibex_market::LoadError;
use ibex_market::load_ibex35_companies;

// A well-formed descriptor with three sections, as the loader expects it.
fn three_section_descriptor() -> String {
    let mut text = String::new();
    text.push_str("[AENA]\n");
    text.push_str("full_name = \"AENA S.A.\"\n");
    text.push_str("ticker = \"AENA\"\n");
    text.push_str("isin = \"ES0105046009\"\n");
    text.push_str("extra_id = \"A86212420\"\n");
    text.push_str("[AMS]\n");
    text.push_str("full_name = \"Amadeus IT Holding S.A.\"\n");
    text.push_str("ticker = \"AMS\"\n");
    text.push_str("isin = \"ES0109067019\"\n");
    text.push_str("[CLNX]\n");
    text.push_str("full_name = \"Cellnex Telecom S.A.\"\n");
    text.push_str("ticker = \"CLNX\"\n");
    text.push_str("isin = \"ES0105066007\"\n");
    text
}

// Loading a 35-entry well-formed descriptor yields a market with 35 tickers.
#[test]
fn load_from_file() {
    let mut text = String::new();
    for i in 0..35 {
        text.push_str(&format!("[TCK{i}]\n"));
        text.push_str(&format!("full_name = \"Company number {i}\"\n"));
        text.push_str(&format!("ticker = \"TCK{i}\"\n"));
        text.push_str(&format!("isin = \"ES01050460{i:02}\"\n"));
    }
    let market = load_ibex35_companies(&text).unwrap();
    assert_eq!(market.list_tickers().len(), 35);
}

#[test]
fn test_1() {
    let market = load_ibex35_companies(&three_section_descriptor()).unwrap();
    let tickers = market.list_tickers();
    assert_eq!(tickers.len(), 3);
    assert!(tickers.contains(&String::from("AENA")));
    assert!(tickers.contains(&String::from("AMS")));
    assert!(tickers.contains(&String::from("CLNX")));
}

// The scenario over three sections: loading succeeds, search finds the
// Cellnex entry whatever the query's case, and absent names and tickers
// report not-found.
#[test]
fn three_sections_scenario() {
    let market = load_ibex35_companies(&three_section_descriptor()).unwrap();
    assert_eq!(market.get_companies().len(), 3);

    let by_upper = market.stock_by_name("CELLNEX").unwrap();
    assert_eq!(by_upper.len(), 1);
    assert_eq!(by_upper[0].ticker(), "CLNX");
    let by_lower = market.stock_by_name("cell").unwrap();
    assert_eq!(by_lower.len(), 1);
    assert_eq!(by_lower[0].ticker(), "CLNX");
    assert_eq!(by_lower[0].isin(), "ES0105066007");

    assert!(market.stock_by_name("Grifols").is_none());
    assert!(market.stock_by_ticker("SAN").is_none());

    let aena = market.stock_by_ticker("AENA").unwrap();
    assert_eq!(aena.isin(), "ES0105046009");
    assert_eq!(aena.extra_id(), Some(&String::from("A86212420")));
}

// A section lacking `isin` fails the whole load with `MissingField` naming
// that section and key; no partial market is returned.
#[test]
fn missing_isin_fails_fast() {
    let mut text = String::new();
    text.push_str("[AENA]\n");
    text.push_str("full_name = \"AENA S.A.\"\n");
    text.push_str("ticker = \"AENA\"\n");
    text.push_str("isin = \"ES0105046009\"\n");
    text.push_str("[AMS]\n");
    text.push_str("full_name = \"Amadeus IT Holding S.A.\"\n");
    text.push_str("ticker = \"AMS\"\n");
    let err = load_ibex35_companies(&text).unwrap_err();
    assert_eq!(
        err,
        LoadError::MissingField { section: String::from("AMS"), key: String::from("isin") }
    );
}

// The first defective section in iteration order is the one named: an
// earlier section lacking `full_name` wins over a later one lacking `isin`.
#[test]
fn first_defect_wins() {
    let mut text = String::new();
    text.push_str("[AAA]\n");
    text.push_str("ticker = \"AAA\"\n");
    text.push_str("isin = \"ISIN-A\"\n");
    text.push_str("[BBB]\n");
    text.push_str("full_name = \"B company\"\n");
    text.push_str("ticker = \"BBB\"\n");
    let err = load_ibex35_companies(&text).unwrap_err();
    assert_eq!(
        err,
        LoadError::MissingField { section: String::from("AAA"), key: String::from("full_name") }
    );
}

#[test]
fn missing_full_name_reported() {
    let text = "[AENA]\nticker = \"AENA\"\nisin = \"ES0105046009\"\n";
    let err = load_ibex35_companies(text).unwrap_err();
    assert_eq!(
        err,
        LoadError::MissingField { section: String::from("AENA"), key: String::from("full_name") }
    );
}

#[test]
fn missing_ticker_reported() {
    let text = "[AENA]\nfull_name = \"AENA S.A.\"\nisin = \"ES0105046009\"\n";
    let err = load_ibex35_companies(text).unwrap_err();
    assert_eq!(
        err,
        LoadError::MissingField { section: String::from("AENA"), key: String::from("ticker") }
    );
}

// A required key whose value is not a string counts as missing.
#[test]
fn non_string_value_counts_as_missing() {
    let text = "[AENA]\nfull_name = \"AENA S.A.\"\nticker = 42\nisin = \"ES0105046009\"\n";
    let err = load_ibex35_companies(text).unwrap_err();
    assert_eq!(
        err,
        LoadError::MissingField { section: String::from("AENA"), key: String::from("ticker") }
    );
}

// A top-level entry that is no table is a section without fields.
#[test]
fn non_table_section_lacks_every_field() {
    let text = "x = 1\n";
    let err = load_ibex35_companies(text).unwrap_err();
    assert_eq!(
        err,
        LoadError::MissingField { section: String::from("x"), key: String::from("full_name") }
    );
}

// Text that is not well-formed TOML is classified as a malformed source.
#[test]
fn malformed_text_reported() {
    let err = load_ibex35_companies("[unclosed\n???").unwrap_err();
    assert_eq!(err, LoadError::MalformedSource);
}

// An empty source parses into an empty market.
#[test]
fn empty_source_gives_empty_market() {
    let market = load_ibex35_companies("").unwrap();
    assert_eq!(market.list_tickers().len(), 0);
    assert_eq!(market.get_companies().len(), 0);
    assert!(market.stock_by_ticker("AENA").is_none());
}

// The optional key is carried over exactly: absent stays absent, a value
// stays that value.
#[test]
fn extra_id_optional_through_loader() {
    let market = load_ibex35_companies(&three_section_descriptor()).unwrap();
    let aena = market.stock_by_ticker("AENA").unwrap();
    assert_eq!(aena.extra_id(), Some(&String::from("A86212420")));
    let ams = market.stock_by_ticker("AMS").unwrap();
    assert!(ams.extra_id().is_none());
}

// The single name key fills both the short and the full name.
#[test]
fn full_name_fills_both_names() {
    let market = load_ibex35_companies(&three_section_descriptor()).unwrap();
    let clnx = market.stock_by_ticker("CLNX").unwrap();
    assert_eq!(clnx.name(), "Cellnex Telecom S.A.");
    assert_eq!(clnx.full_name(), Some(&String::from("Cellnex Telecom S.A.")));
}

// Two sections naming the same ticker collapse to the later one.
#[test]
fn duplicate_ticker_sections_collapse() {
    let mut text = String::new();
    text.push_str("[ONE]\n");
    text.push_str("full_name = \"First name\"\n");
    text.push_str("ticker = \"SAME\"\n");
    text.push_str("isin = \"ISIN-ONE\"\n");
    text.push_str("[TWO]\n");
    text.push_str("full_name = \"Second name\"\n");
    text.push_str("ticker = \"SAME\"\n");
    text.push_str("isin = \"ISIN-TWO\"\n");
    let market = load_ibex35_companies(&text).unwrap();
    assert_eq!(market.get_companies().len(), 1);
    assert_eq!(market.stock_by_ticker("SAME").unwrap().isin(), "ISIN-TWO");
}
