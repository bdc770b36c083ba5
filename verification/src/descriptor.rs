//! The trusted interface to the TOML parser.
//!
//! The descriptor source is structured text: a table of named sections, each
//! section a flat set of key/value pairs. Parsing that text is the work of
//! the `toml` crate; this module declares the crate's types and wraps the few
//! calls the loader makes. The contents of a parsed table are named by two
//! uninterpreted functions, `table_sections` and `section_field`, and every
//! wrapper's contract speaks of the table through them; the loader's own
//! contracts are then proved from these.

use vstd::prelude::*;

verus! {

#[verifier::external_type_specification]
#[verifier::external_body]
#[verifier::reject_recursive_types(K)]
#[verifier::reject_recursive_types(V)]
pub struct ExTomlMap<K, V>(toml::map::Map<K, V>);

#[verifier::external_type_specification]
#[verifier::external_body]
pub struct ExTomlValue(toml::Value);

#[verifier::external_type_specification]
#[verifier::external_body]
pub struct ExTomlDeError(toml::de::Error);

/// The top-level keys of a parsed descriptor table, in the order the table
/// hands them out.
pub uninterp spec fn table_sections(t: toml::map::Map<String, toml::Value>) -> Seq<Seq<char>>;

/// The string value reached from the table by the two nested keys `section`
/// and `key`: `Some` exactly when the table holds `section`, the value there
/// is itself a table holding `key`, and that inner value is a string. A
/// missing section, a section that is no table, a missing key and a value of
/// any other type all yield `None`.
pub uninterp spec fn section_field(
    t: toml::map::Map<String, toml::Value>,
    section: Seq<char>,
    key: Seq<char>,
) -> Option<Seq<char>>;

/// What parsing descriptor text yields: the table for well-formed text,
/// `None` for malformed text. Parsing is a function of the text alone, so
/// the outcome can bear a name.
pub uninterp spec fn parsed_table(s: Seq<char>) -> Option<toml::map::Map<String, toml::Value>>;

/// Relies on toml's `FromStr` implementation for `toml::Table`: it parses
/// descriptor text into a table of values, deterministically, and reports a
/// distinguishable error on malformed input.
#[verifier::external_body]
pub(crate) fn parse_table(text: &str) -> (r: Result<
    toml::map::Map<String, toml::Value>,
    toml::de::Error,
>)
    ensures
        match r {
            Ok(t) => parsed_table(text@) == Some(t),
            Err(_) => parsed_table(text@) is None,
        },
{
    text.parse::<toml::Table>()
}

/// Relies on `toml::map::Map::keys`: it hands out the table's keys, which
/// this wrapper collects into owned strings.
#[verifier::external_body]
pub(crate) fn table_keys(t: &toml::map::Map<String, toml::Value>) -> (r: Vec<String>)
    ensures
        r.deep_view() == table_sections(*t),
{
    t.keys().cloned().collect()
}

/// Relies on `toml::map::Map::get`, `toml::Value::as_table` and
/// `toml::Value::as_str`: the nested lookup of `key` inside the section named
/// `section`, handing back the value exactly when it is a string.
#[verifier::external_body]
pub(crate) fn section_str(
    t: &toml::map::Map<String, toml::Value>,
    section: &str,
    key: &str,
) -> (r: Option<String>)
    ensures
        r.deep_view() == section_field(*t, section@, key@),
{
    t.get(section)
        .and_then(|v| v.as_table())
        .and_then(|s| s.get(key))
        .and_then(|v| v.as_str())
        .map(str::to_owned)
}

} // verus!
