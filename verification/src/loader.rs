//! The descriptor loader: from descriptor text to a validated market
//! registry, in a single pass, failing on the first structural problem.
//!
//! Required keys per section: `full_name`, `ticker`, `isin`; optional key:
//! `extra_id`. The descriptor carries a single name key, `full_name`, whose
//! value fills both the short and the full name of the company. A section
//! lacking a required key (or holding it with a non-string value) aborts the
//! whole load: no partial registry is ever returned.

use vstd::prelude::*;

use crate::company::CompanySpec;
use crate::company::IbexCompany;
use crate::descriptor::parse_table;
use crate::descriptor::parsed_table;
use crate::descriptor::section_field;
use crate::descriptor::section_str;
use crate::descriptor::table_keys;
use crate::descriptor::table_sections;
use crate::market::Ibex35Market;
use crate::market::registry_of;

verus! {

/// A classified loading failure. Queries on a built market never fail;
/// these errors arise only while a registry is being loaded.
#[derive(Debug, PartialEq, Eq)]
pub enum LoadError {
    /// The descriptor source could not be opened or read.
    SourceUnreadable,
    /// The raw text is not a well-formed descriptor table.
    MalformedSource,
    /// A required key is absent (or not a string) within a section; carries
    /// the section name and the key for diagnostics.
    MissingField { section: String, key: String },
}

/// The value of `key` inside `section`, or the empty sequence when absent;
/// only used where the key was checked to be present.
pub open spec fn field_or_empty(
    t: toml::map::Map<String, toml::Value>,
    s: Seq<char>,
    k: Seq<char>,
) -> Seq<char> {
    match section_field(t, s, k) {
        Some(v) => v,
        None => Seq::empty(),
    }
}

/// The first required key missing from the section `s`, checking
/// `full_name`, then `ticker`, then `isin`; `None` when the section holds
/// all three.
pub open spec fn first_missing_key(
    t: toml::map::Map<String, toml::Value>,
    s: Seq<char>,
) -> Option<Seq<char>> {
    if section_field(t, s, "full_name"@) is None {
        Some("full_name"@)
    } else if section_field(t, s, "ticker"@) is None {
        Some("ticker"@)
    } else if section_field(t, s, "isin"@) is None {
        Some("isin"@)
    } else {
        None
    }
}

/// The company described by the section `s`: the `full_name` value fills
/// both names, and `extra_id` is carried over exactly as present or absent.
pub open spec fn section_company(
    t: toml::map::Map<String, toml::Value>,
    s: Seq<char>,
) -> CompanySpec {
    CompanySpec {
        full_name: section_field(t, s, "full_name"@),
        short_name: field_or_empty(t, s, "full_name"@),
        ticker: field_or_empty(t, s, "ticker"@),
        isin: field_or_empty(t, s, "isin"@),
        extra_id: section_field(t, s, "extra_id"@),
    }
}

/// The outcome of extracting the sections `secs` from the table `t`, walking
/// them in order and stopping at the first section with a missing required
/// key: either every section's company, in section order, or the offending
/// section and key.
pub open spec fn spec_extract(
    t: toml::map::Map<String, toml::Value>,
    secs: Seq<Seq<char>>,
) -> Result<Seq<CompanySpec>, (Seq<char>, Seq<char>)>
    decreases secs.len(),
{
    if secs.len() == 0 {
        Ok(Seq::empty())
    } else {
        match first_missing_key(t, secs.first()) {
            Some(k) => Err((secs.first(), k)),
            None => match spec_extract(t, secs.drop_first()) {
                Ok(rest) => Ok(seq![section_company(t, secs.first())] + rest),
                Err(e) => Err(e),
            },
        }
    }
}

/// Fail-fast law: when every section before `i` is complete and section `i`
/// is defective, the extraction fails naming exactly that section and its
/// first missing key, so no registry at all is produced. In particular a
/// first-defective section holding `full_name` and `ticker` but lacking
/// `isin` is named together with the key `isin`.
pub proof fn lemma_fail_fast(t: toml::map::Map<String, toml::Value>, secs: Seq<Seq<char>>, i: int)
    requires
        0 <= i < secs.len(),
        forall|j: int| 0 <= j < i ==> first_missing_key(t, secs[j]) is None,
        first_missing_key(t, secs[i]) is Some,
    ensures
        spec_extract(t, secs) == Err::<Seq<CompanySpec>, (Seq<char>, Seq<char>)>(
            (secs[i], first_missing_key(t, secs[i])->Some_0),
        ),
    decreases i,
{
    if i == 0 {
        assert(secs.first() == secs[0]);
    } else {
        let tail = secs.drop_first();
        assert(first_missing_key(t, secs.first()) is None);
        assert forall|j: int| 0 <= j < i - 1 implies first_missing_key(t, tail[j]) is None by {
            assert(tail[j] == secs[j + 1]);
        }
        assert(tail[i - 1] == secs[i]);
        lemma_fail_fast(t, tail, i - 1);
    }
}

/// The market `m` is the complete, validated extraction of the table `t`:
/// every section passed validation and the registry is their keyed
/// collection.
pub open spec fn loaded_from(t: toml::map::Map<String, toml::Value>, m: Ibex35Market) -> bool {
    spec_extract(t, table_sections(t)) matches Ok(cs) && m@.companies == registry_of(cs)
}

/// Builds the market registry from an already-parsed descriptor table.
///
/// Walks the table's sections in order; the first section lacking a required
/// key aborts the load with `MissingField` naming that section and key.
/// On success the registry holds each section's company, keyed by ticker
/// with last-write-wins for a duplicated ticker.
pub fn build_market(table: &toml::map::Map<String, toml::Value>) -> (r: Result<
    Ibex35Market,
    LoadError,
>)
    ensures
        match r {
            Ok(m) => {
                &&& spec_extract(*table, table_sections(*table)) matches Ok(cs)
                    && m@.companies == registry_of(cs)
                &&& m.wf()
                &&& m@.name == "BME Ibex35 Index"@
                &&& m@.open_time == "08:00:00"@
                &&& m@.close_time == "16:30:00"@
                &&& m@.currency == "euro"@
            },
            Err(e) => match e {
                LoadError::MissingField { section, key } => spec_extract(
                    *table,
                    table_sections(*table),
                ) == Err::<Seq<CompanySpec>, (Seq<char>, Seq<char>)>((section@, key@)),
                LoadError::MalformedSource => false,
                LoadError::SourceUnreadable => false,
            },
        },
{
    let keys = table_keys(table);
    let ghost secs = table_sections(*table);
    let mut companies: Vec<IbexCompany> = Vec::new();
    let n = keys.len();
    let mut i: usize = 0;
    proof {
        assert(keys.deep_view().len() == keys@.len());
        assert(secs.skip(0) =~= secs);
    }
    while i < n
        invariant
            i <= n,
            secs == table_sections(*table),
            n == secs.len(),
            keys.deep_view() == secs,
            n == keys@.len(),
            spec_extract(*table, secs) == (match spec_extract(*table, secs.skip(i as int)) {
                Ok(rest) => Ok::<Seq<CompanySpec>, (Seq<char>, Seq<char>)>(
                    companies.deep_view() + rest,
                ),
                Err(e) => Err(e),
            }),
        decreases n - i,
    {
        let sec = &keys[i];
        proof {
            assert(sec@ == secs[i as int]);
            assert(secs.skip(i as int).first() == secs[i as int]);
            assert(secs.skip(i as int).drop_first() =~= secs.skip(i + 1 as int));
        }
        let fname = match section_str(table, sec.as_str(), "full_name") {
            Some(v) => v,
            None => {
                return Err(LoadError::MissingField {
                    section: sec.clone(),
                    key: "full_name".to_owned(),
                });
            },
        };
        let ticker = match section_str(table, sec.as_str(), "ticker") {
            Some(v) => v,
            None => {
                return Err(LoadError::MissingField {
                    section: sec.clone(),
                    key: "ticker".to_owned(),
                });
            },
        };
        let isin = match section_str(table, sec.as_str(), "isin") {
            Some(v) => v,
            None => {
                return Err(LoadError::MissingField {
                    section: sec.clone(),
                    key: "isin".to_owned(),
                });
            },
        };
        let extra = section_str(table, sec.as_str(), "extra_id");
        proof {
            assert(first_missing_key(*table, secs[i as int]) is None);
        }
        let company = IbexCompany::new(
            Some(fname.as_str()),
            fname.as_str(),
            ticker.as_str(),
            isin.as_str(),
            match &extra {
                Some(s) => Some(s.as_str()),
                None => None,
            },
        );
        proof {
            assert(company.deep_view() == section_company(*table, secs[i as int]));
        }
        let ghost old_dv = companies.deep_view();
        companies.push(company);
        proof {
            assert(companies.deep_view().len() == old_dv.len() + 1);
            assert(forall|k: int| 0 <= k < old_dv.len() ==> companies.deep_view()[k] == old_dv[k]);
            assert(companies.deep_view()[old_dv.len() as int] == section_company(
                *table,
                secs[i as int],
            ));
            assert(companies.deep_view() =~= old_dv.push(section_company(*table, secs[i as int])));
            assert(old_dv + seq![section_company(*table, secs[i as int])] =~= companies.deep_view());
            let tail = spec_extract(*table, secs.skip(i + 1 as int));
            if tail is Ok {
                let rest = tail->Ok_0;
                assert((old_dv + (seq![section_company(*table, secs[i as int])] + rest)) =~= (
                companies.deep_view() + rest));
            }
        }
        i = i + 1;
    }
    proof {
        assert(secs.skip(n as int) =~= Seq::<Seq<char>>::empty());
        assert(spec_extract(*table, secs.skip(n as int)) == Ok::<
            Seq<CompanySpec>,
            (Seq<char>, Seq<char>),
        >(Seq::empty()));
        assert(companies.deep_view() + Seq::empty() =~= companies.deep_view());
    }
    Ok(Ibex35Market::new(companies))
}

/// Loads the Ibex35 registry from descriptor text.
///
/// The outcome is three-way, each branch tied to the text: a fully-populated
/// market exactly when the text parses and every section passes validation;
/// `MalformedSource` exactly when the text is not a well-formed descriptor
/// table; `MissingField` exactly when the text parses but its first
/// defective section lacks the named key. Nothing partial is ever returned,
/// and reading the source is the caller's task, so `SourceUnreadable` never
/// arises here.
pub fn load_ibex35_companies(text: &str) -> (r: Result<Ibex35Market, LoadError>)
    ensures
        match r {
            Ok(m) => {
                &&& parsed_table(text@) matches Some(t) && loaded_from(t, m)
                &&& m.wf()
                &&& m@.name == "BME Ibex35 Index"@
                &&& m@.open_time == "08:00:00"@
                &&& m@.close_time == "16:30:00"@
                &&& m@.currency == "euro"@
            },
            Err(e) => match e {
                LoadError::MalformedSource => parsed_table(text@) is None,
                LoadError::MissingField { section, key } => parsed_table(text@) matches Some(t)
                    && spec_extract(t, table_sections(t)) == Err::<
                    Seq<CompanySpec>,
                    (Seq<char>, Seq<char>),
                >((section@, key@)),
                LoadError::SourceUnreadable => false,
            },
        },
{
    let table = match parse_table(text) {
        Ok(t) => t,
        Err(_) => {
            return Err(LoadError::MalformedSource);
        },
    };
    let r = build_market(&table);
    proof {
        if r is Ok {
            assert(loaded_from(table, r->Ok_0));
        }
    }
    r
}

} // verus!
