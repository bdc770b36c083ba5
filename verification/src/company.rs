//! The company entity: an immutable record of one tradable legal entity.

use vstd::prelude::*;
use vstd::string::StringExecFns;

verus! {

/// The mathematical content of a company record: every field as a plain
/// character sequence, optional fields as `Option`.
pub ghost struct CompanySpec {
    pub full_name: Option<Seq<char>>,
    pub short_name: Seq<char>,
    pub ticker: Seq<char>,
    pub isin: Seq<char>,
    pub extra_id: Option<Seq<char>>,
}

/// One company included in an index of the Ibex family.
///
/// The record is immutable after construction: there is no mutating method,
/// and a registry only ever hands out shared references to it.
///
/// - `full_name`: the legal name; optional.
/// - `short_name`: the usual, contracted name; required.
/// - `ticker`: the exchange symbol; required, and the natural key inside a
///   market registry.
/// - `isin`: the International Securities Identification Number; required.
/// - `nif`: a jurisdiction-specific registry identifier, carried by companies
///   registered in Spain; optional.
///
/// No format validation is applied to any field: identifiers are stored as
/// opaque text.
#[derive(Debug)]
pub struct IbexCompany {
    pub full_name: Option<String>,
    pub short_name: String,
    pub ticker: String,
    pub isin: String,
    pub nif: Option<String>,
}

impl View for IbexCompany {
    type V = CompanySpec;

    open spec fn view(&self) -> CompanySpec {
        CompanySpec {
            full_name: self.full_name.deep_view(),
            short_name: self.short_name@,
            ticker: self.ticker@,
            isin: self.isin@,
            extra_id: self.nif.deep_view(),
        }
    }
}

impl DeepView for IbexCompany {
    type V = CompanySpec;

    open spec fn deep_view(&self) -> CompanySpec {
        self.view()
    }
}

impl IbexCompany {
    /// Builds a company record from its five attributes. The optional
    /// arguments are the full name and the jurisdiction identifier; input
    /// values are not checked against any identifier format.
    pub fn new(
        fname: Option<&str>,
        sname: &str,
        ticker: &str,
        isin: &str,
        nif: Option<&str>,
    ) -> (r: IbexCompany)
        ensures
            r@ == (CompanySpec {
                full_name: fname.deep_view(),
                short_name: sname@,
                ticker: ticker@,
                isin: isin@,
                extra_id: nif.deep_view(),
            }),
    {
        IbexCompany {
            full_name: match fname {
                Some(s) => Some(s.to_owned()),
                None => None,
            },
            short_name: sname.to_owned(),
            ticker: ticker.to_owned(),
            isin: isin.to_owned(),
            nif: match nif {
                Some(s) => Some(s.to_owned()),
                None => None,
            },
        }
    }

    /// The most common name of the stock.
    pub fn name(&self) -> (r: &str)
        ensures
            r@ == self@.short_name,
    {
        self.short_name.as_str()
    }

    /// The legal (full) name of the stock, or `None` when no full name was
    /// supplied at construction.
    pub fn full_name(&self) -> (r: Option<&String>)
        ensures
            r.deep_view() == self@.full_name,
    {
        self.full_name.as_ref()
    }

    /// The ISIN of the stock.
    pub fn isin(&self) -> (r: &str)
        ensures
            r@ == self@.isin,
    {
        self.isin.as_str()
    }

    /// The ticker of the stock.
    pub fn ticker(&self) -> (r: &str)
        ensures
            r@ == self@.ticker,
    {
        self.ticker.as_str()
    }

    /// The jurisdiction-specific identifier (the NIF for companies registered
    /// in Spain), or `None` when the entity has none.
    pub fn extra_id(&self) -> (r: Option<&String>)
        ensures
            r.deep_view() == self@.extra_id,
    {
        self.nif.as_ref()
    }

    /// Renders the company as `TICKER: NAME`, its one-line display form.
    pub fn render(&self) -> (r: String)
        ensures
            r@ == self@.ticker + ": "@ + self@.short_name,
    {
        let mut s = self.ticker.clone();
        s.append(": ");
        s.append(self.short_name.as_str());
        s
    }
}

} // verus!
