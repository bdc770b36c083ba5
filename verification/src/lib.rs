//! A registry of the constituent companies of a stock-market index.
//!
//! The library models a market index as an immutable registry of companies
//! keyed by ticker, offers exact-ticker lookup, case-insensitive substring
//! search over company names, and builds the registry from a TOML descriptor
//! source, classifying every failure.

mod company;
mod descriptor;
mod loader;
mod market;
mod text;

pub use company::CompanySpec;
pub use company::IbexCompany;
pub use descriptor::parsed_table;
pub use descriptor::section_field;
pub use descriptor::table_sections;
pub use loader::LoadError;
pub use loader::build_market;
pub use loader::first_missing_key;
pub use loader::lemma_fail_fast;
pub use loader::load_ibex35_companies;
pub use loader::loaded_from;
pub use loader::section_company;
pub use loader::spec_extract;
pub use market::Ibex35Market;
pub use market::MarketSpec;
pub use market::lemma_exact_lookup;
pub use market::lemma_search_case_insensitive;
pub use market::lemma_tickers_unique;
pub use market::has_ticker;
pub use market::index_of_ticker;
pub use market::name_matches;
pub use market::registry_insert;
pub use market::registry_of;
pub use market::spec_stock_by_name;
pub use market::spec_stock_by_ticker;
pub use market::spec_tickers;
pub use market::tickers_distinct;
pub use text::contains_substring;
pub use text::is_substring_of;
pub use text::lower_char;
pub use text::lower_chars;
pub use text::lower_seq;
pub use text::str_chars;
