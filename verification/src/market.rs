//! The market registry: an immutable collection of companies keyed by ticker.
//!
//! The registry is a sequence of companies whose tickers are pairwise
//! distinct; the constructor enforces that invariant by keyed insertion in
//! which a later entry for an already-registered ticker replaces the earlier
//! one, exactly as insertion into a map keyed by ticker would.

use vstd::prelude::*;

use crate::company::CompanySpec;
use crate::company::IbexCompany;
use crate::text::is_substring_of;
use crate::text::lower_seq;
use crate::text::contains_substring;
use crate::text::lower_chars;
use crate::text::str_chars;

verus! {

/// The mathematical content of a market registry.
pub ghost struct MarketSpec {
    pub name: Seq<char>,
    pub open_time: Seq<char>,
    pub close_time: Seq<char>,
    pub currency: Seq<char>,
    pub companies: Seq<CompanySpec>,
}

/// Some company in `s` bears the ticker `t`.
pub open spec fn has_ticker(s: Seq<CompanySpec>, t: Seq<char>) -> bool {
    exists|i: int| 0 <= i < s.len() && s[i].ticker == t
}

/// An index of a company in `s` bearing the ticker `t`; when the tickers of
/// `s` are pairwise distinct, the index is unique.
pub open spec fn index_of_ticker(s: Seq<CompanySpec>, t: Seq<char>) -> int {
    choose|i: int| 0 <= i < s.len() && s[i].ticker == t
}

/// The tickers of the companies of `s` are pairwise distinct.
pub open spec fn tickers_distinct(s: Seq<CompanySpec>) -> bool {
    forall|i: int, j: int| 0 <= i < j < s.len() ==> s[i].ticker != s[j].ticker
}

/// Exact-ticker lookup at the specification level: the company of `s` bearing
/// `t`, or `None` when no company does.
pub open spec fn spec_stock_by_ticker(s: Seq<CompanySpec>, t: Seq<char>) -> Option<CompanySpec> {
    if has_ticker(s, t) {
        Some(s[index_of_ticker(s, t)])
    } else {
        None
    }
}

/// The company `c` matches the query `q` when the lower-cased query occurs in
/// the lower-cased short name as a contiguous run of characters.
pub open spec fn name_matches(c: CompanySpec, q: Seq<char>) -> bool {
    is_substring_of(lower_seq(q), lower_seq(c.short_name))
}

/// Fuzzy name search at the specification level: every company of `s` whose
/// short name contains `q` case-insensitively, in registry order.
pub open spec fn spec_stock_by_name(s: Seq<CompanySpec>, q: Seq<char>) -> Seq<CompanySpec> {
    s.filter(|c: CompanySpec| name_matches(c, q))
}

/// The ticker list of `s`, in registry order.
pub open spec fn spec_tickers(s: Seq<CompanySpec>) -> Seq<Seq<char>> {
    s.map_values(|c: CompanySpec| c.ticker)
}

/// Keyed insertion with earlier-entry priority: `c` is dropped when its
/// ticker is already registered, and appended otherwise.
pub open spec fn registry_insert(s: Seq<CompanySpec>, c: CompanySpec) -> Seq<CompanySpec> {
    if has_ticker(s, c.ticker) {
        s
    } else {
        s.push(c)
    }
}

/// The registry built from `input` with last-write-wins semantics for a
/// duplicated ticker: walking `input` from its end, a company is kept only
/// when its ticker was not seen yet, so for each ticker the latest entry of
/// `input` survives.
pub open spec fn registry_of(input: Seq<CompanySpec>) -> Seq<CompanySpec>
    decreases input.len(),
{
    if input.len() == 0 {
        Seq::empty()
    } else {
        registry_insert(registry_of(input.drop_first()), input.first())
    }
}

/// The registry of the Ibex35 index: fixed metadata and an immutable set of
/// constituent companies with pairwise-distinct tickers.
///
/// There is no mutating operation: a new registry must be built whenever the
/// composition of the index changes.
#[derive(Debug)]
pub struct Ibex35Market {
    pub name: String,
    pub open_time: String,
    pub close_time: String,
    pub currency: String,
    pub companies: Vec<IbexCompany>,
}

impl View for Ibex35Market {
    type V = MarketSpec;

    open spec fn view(&self) -> MarketSpec {
        MarketSpec {
            name: self.name@,
            open_time: self.open_time@,
            close_time: self.close_time@,
            currency: self.currency@,
            companies: self.companies.deep_view(),
        }
    }
}

impl Ibex35Market {
    /// The constituents' tickers are pairwise distinct.
    pub open spec fn wf(&self) -> bool {
        tickers_distinct(self@.companies)
    }

    /// Builds the Ibex35 registry from a collection of companies.
    ///
    /// The collection stands for a mapping keyed by ticker: when two entries
    /// share a ticker, the later one silently replaces the earlier, exactly
    /// as repeated insertion into such a mapping would. No further
    /// cross-validation is applied: the caller is responsible for supplying
    /// the composition of the index.
    pub fn new(companies: Vec<IbexCompany>) -> (r: Ibex35Market)
        ensures
            r@.companies == registry_of(companies.deep_view()),
            r.wf(),
            r@.name == "BME Ibex35 Index"@,
            r@.open_time == "08:00:00"@,
            r@.close_time == "16:30:00"@,
            r@.currency == "euro"@,
    {
        let ghost input: Seq<CompanySpec> = companies.deep_view();
        let mut rest = companies;
        let mut reg: Vec<IbexCompany> = Vec::new();
        proof {
            assert(input.skip(input.len() as int) =~= Seq::<CompanySpec>::empty());
        }
        while rest.len() > 0
            invariant
                rest.deep_view() == input.take(rest.len() as int),
                rest.len() <= input.len(),
                reg.deep_view() == registry_of(input.skip(rest.len() as int)),
                tickers_distinct(reg.deep_view()),
            decreases rest.len(),
        {
            let ghost k = rest.len() as int;
            let ghost old_rest_dv = rest.deep_view();
            let ghost old_dv = reg.deep_view();
            let c = rest.pop().unwrap();
            proof {
                assert(old_rest_dv.len() == k);
                assert(rest@.len() == k - 1);
                assert(forall|j: int| 0 <= j < k - 1 ==> rest.deep_view()[j] == old_rest_dv[j]);
                assert(rest.deep_view() =~= input.take(k - 1));
                assert(c.deep_view() == old_rest_dv[k - 1]);
                assert(c.deep_view() == input[k - 1]);
                assert(input.skip(k - 1).first() == input[k - 1]);
                assert(input.skip(k - 1).drop_first() =~= input.skip(k));
            }
            let dup = find_by_ticker(&reg, c.ticker.as_str());
            if dup.is_none() {
                proof {
                    assert(!has_ticker(old_dv, c.deep_view().ticker));
                }
                reg.push(c);
                proof {
                    assert(reg@.len() == old_dv.len() + 1);
                    assert(forall|j: int| 0 <= j < old_dv.len() ==> reg.deep_view()[j] == old_dv[j]);
                    assert(reg.deep_view()[old_dv.len() as int] == input[k - 1]);
                    assert(reg.deep_view() =~= registry_insert(old_dv, input[k - 1]));
                    assert forall|i: int, j: int|
                        0 <= i < j < reg.deep_view().len() implies reg.deep_view()[i].ticker
                        != reg.deep_view()[j].ticker by {
                        if j == old_dv.len() {
                            assert(reg.deep_view()[i] == old_dv[i]);
                        }
                    }
                }
            } else {
                proof {
                    let w = dup->Some_0;
                    assert(old_dv[w as int].ticker == input[k - 1].ticker);
                    assert(has_ticker(old_dv, input[k - 1].ticker));
                    assert(registry_insert(old_dv, input[k - 1]) == old_dv);
                }
            }
            proof {
                assert(reg.deep_view() == registry_insert(registry_of(input.skip(k)), input[k
                    - 1]));
                assert(reg.deep_view() == registry_of(input.skip(k - 1)));
            }
        }
        proof {
            assert(input.skip(0) =~= input);
        }
        Ibex35Market {
            name: "BME Ibex35 Index".to_owned(),
            open_time: "08:00:00".to_owned(),
            close_time: "16:30:00".to_owned(),
            currency: "euro".to_owned(),
            companies: reg,
        }
    }

    /// The display name of the market.
    pub fn market_name(&self) -> (r: &str)
        ensures
            r@ == self@.name,
    {
        self.name.as_str()
    }

    /// The opening time of the trading session (UTC).
    pub fn open_time(&self) -> (r: &str)
        ensures
            r@ == self@.open_time,
    {
        self.open_time.as_str()
    }

    /// The closing time of the trading session (UTC).
    pub fn close_time(&self) -> (r: &str)
        ensures
            r@ == self@.close_time,
    {
        self.close_time.as_str()
    }

    /// The currency the market trades in.
    pub fn currency(&self) -> (r: &str)
        ensures
            r@ == self@.currency,
    {
        self.currency.as_str()
    }

    /// The tickers of every registered company, freshly collected on each
    /// call; the order carries no meaning.
    pub fn list_tickers(&self) -> (r: Vec<String>)
        ensures
            r.deep_view() == spec_tickers(self@.companies),
    {
        let mut r: Vec<String> = Vec::new();
        let n = self.companies.len();
        let mut i: usize = 0;
        while i < n
            invariant
                i <= n,
                n == self@.companies.len(),
                r.deep_view() =~= spec_tickers(self@.companies).take(i as int),
            decreases n - i,
        {
            r.push(self.companies[i].ticker.clone());
            proof {
                let ghost t = spec_tickers(self@.companies);
                assert(t.take(i as int).len() == i);
                assert(r.deep_view().len() == i + 1);
                assert(forall|k: int|
                    0 <= k < i ==> r.deep_view()[k] == t.take(i as int)[k]);
                assert(r.deep_view()[i as int] == self@.companies[i as int].ticker);
                assert(r.deep_view() =~= t.take(i + 1 as int));
            }
            i = i + 1;
        }
        assert(spec_tickers(self@.companies).take(n as int) =~= spec_tickers(self@.companies));
        r
    }

    /// Every registered company, in registry order; the order carries no
    /// meaning.
    pub fn get_companies(&self) -> (r: Vec<&IbexCompany>)
        ensures
            r.deep_view() == self@.companies,
    {
        let mut r: Vec<&IbexCompany> = Vec::new();
        let n = self.companies.len();
        let mut i: usize = 0;
        while i < n
            invariant
                i <= n,
                n == self@.companies.len(),
                r.deep_view() =~= self@.companies.take(i as int),
            decreases n - i,
        {
            r.push(&self.companies[i]);
            proof {
                assert(self@.companies.take(i as int).len() == i);
                assert(r.deep_view().len() == i + 1);
                assert(forall|k: int|
                    0 <= k < i ==> r.deep_view()[k] == self@.companies.take(i as int)[k]);
                assert(r.deep_view()[i as int] == self@.companies[i as int]);
                assert(r.deep_view() =~= self@.companies.take(i + 1 as int));
            }
            i = i + 1;
        }
        assert(self@.companies.take(n as int) =~= self@.companies);
        r
    }

    /// Exact-match lookup: the company whose ticker equals `ticker`
    /// byte-for-byte, or `None` when no company bears it. Absence of a match
    /// is a normal outcome, not a fault.
    pub fn stock_by_ticker(&self, ticker: &str) -> (r: Option<&IbexCompany>)
        requires
            self.wf(),
        ensures
            match r {
                Some(c) => spec_stock_by_ticker(self@.companies, ticker@) == Some(c@),
                None => spec_stock_by_ticker(self@.companies, ticker@) is None,
            },
    {
        match find_by_ticker(&self.companies, ticker) {
            Some(i) => {
                let c = &self.companies[i];
                proof {
                    let j = index_of_ticker(self@.companies, ticker@);
                    assert(0 <= j < self@.companies.len() && self@.companies[j].ticker == ticker@);
                    assert(j == i as int);
                }
                Some(c)
            },
            None => None,
        }
    }

    /// Fuzzy lookup: every company whose short name contains `name`
    /// case-insensitively (substring containment, not anchored), or `None`
    /// when no short name matches. A common substring is expected to match
    /// several companies.
    pub fn stock_by_name(&self, name: &str) -> (r: Option<Vec<&IbexCompany>>)
        ensures
            match r {
                Some(v) => v.deep_view() == spec_stock_by_name(self@.companies, name@)
                    && v@.len() > 0,
                None => spec_stock_by_name(self@.companies, name@).len() == 0,
            },
    {
        let query = lower_chars(&str_chars(name));
        let ghost pred = |c: CompanySpec| name_matches(c, name@);
        let mut stocks: Vec<&IbexCompany> = Vec::new();
        let n = self.companies.len();
        let mut i: usize = 0;
        proof {
            reveal(Seq::filter);
            assert(self@.companies.take(0).filter(pred) =~= Seq::<CompanySpec>::empty());
        }
        while i < n
            invariant
                i <= n,
                n == self@.companies.len(),
                query@ == lower_seq(name@),
                pred == (|c: CompanySpec| name_matches(c, name@)),
                stocks.deep_view() == self@.companies.take(i as int).filter(pred),
            decreases n - i,
        {
            let c = &self.companies[i];
            let cname = lower_chars(&str_chars(c.name()));
            let hit = contains_substring(&cname, &query);
            proof {
                reveal(Seq::filter);
                assert(self@.companies.take(i + 1 as int).drop_last() =~= self@.companies.take(
                    i as int,
                ));
                assert(self@.companies.take(i + 1 as int).last() == self@.companies[i as int]);
            }
            proof {
                assert(cname@ == lower_seq(self@.companies[i as int].short_name));
                assert(hit == pred(self@.companies[i as int]));
            }
            let ghost old_dv = stocks.deep_view();
            if hit {
                stocks.push(c);
                proof {
                    assert(stocks.deep_view().len() == old_dv.len() + 1);
                    assert(forall|k: int|
                        0 <= k < old_dv.len() ==> stocks.deep_view()[k] == old_dv[k]);
                    assert(stocks.deep_view()[old_dv.len() as int] == c.deep_view());
                    assert(stocks.deep_view() =~= old_dv.push(c.deep_view()));
                    assert(self@.companies.take(i + 1 as int).filter(pred) == old_dv.push(
                        c.deep_view(),
                    ));
                }
            } else {
                proof {
                    assert(self@.companies.take(i + 1 as int).filter(pred) == old_dv);
                }
            }
            i = i + 1;
        }
        proof {
            assert(self@.companies.take(n as int) =~= self@.companies);
        }
        if stocks.len() > 0 {
            Some(stocks)
        } else {
            None
        }
    }
}

/// Uniqueness law: in a well-formed registry the ticker list pairs one ticker
/// to each company — its length equals the company count, and no ticker
/// appears in it twice.
pub proof fn lemma_tickers_unique(s: Seq<CompanySpec>)
    requires
        tickers_distinct(s),
    ensures
        spec_tickers(s).len() == s.len(),
        forall|i: int, j: int|
            0 <= i < j < spec_tickers(s).len() ==> spec_tickers(s)[i] != spec_tickers(s)[j],
{
    assert forall|i: int, j: int|
        0 <= i < j < spec_tickers(s).len() implies spec_tickers(s)[i] != spec_tickers(s)[j] by {
        assert(spec_tickers(s)[i] == s[i].ticker);
        assert(spec_tickers(s)[j] == s[j].ticker);
    }
}

/// Exact-lookup law: in a well-formed registry, looking up a registered
/// company's own ticker returns exactly that company, and a ticker that no
/// company bears reports not-found.
pub proof fn lemma_exact_lookup(s: Seq<CompanySpec>, c: CompanySpec, t: Seq<char>)
    requires
        tickers_distinct(s),
    ensures
        s.contains(c) ==> spec_stock_by_ticker(s, c.ticker) == Some(c),
        !has_ticker(s, t) ==> spec_stock_by_ticker(s, t) is None,
{
    if s.contains(c) {
        let i = choose|i: int| 0 <= i < s.len() && s[i] == c;
        assert(s[i].ticker == c.ticker);
        assert(has_ticker(s, c.ticker));
        let j = index_of_ticker(s, c.ticker);
        assert(0 <= j < s.len() && s[j].ticker == c.ticker);
        assert(i == j);
    }
}

/// Case-insensitivity law: two queries that agree after ASCII lower-casing
/// produce identical name-search result sets.
pub proof fn lemma_search_case_insensitive(s: Seq<CompanySpec>, q1: Seq<char>, q2: Seq<char>)
    requires
        lower_seq(q1) == lower_seq(q2),
    ensures
        spec_stock_by_name(s, q1) == spec_stock_by_name(s, q2),
    decreases s.len(),
{
    reveal(Seq::filter);
    if s.len() > 0 {
        lemma_search_case_insensitive(s.drop_last(), q1, q2);
    }
}

/// The position of the company of `v` bearing the ticker `t`, searching from
/// the front, or `None` when no company bears it.
fn find_by_ticker(v: &Vec<IbexCompany>, t: &str) -> (r: Option<usize>)
    ensures
        match r {
            Some(i) => 0 <= i < v.deep_view().len() && v.deep_view()[i as int].ticker == t@,
            None => !has_ticker(v.deep_view(), t@),
        },
{
    let key = t.to_owned();
    let n = v.len();
    let mut i: usize = 0;
    while i < n
        invariant
            i <= n,
            n == v.deep_view().len(),
            key@ == t@,
            forall|k: int| 0 <= k < i ==> v.deep_view()[k].ticker != t@,
        decreases n - i,
    {
        if v[i].ticker == key {
            return Some(i);
        }
        i = i + 1;
    }
    None
}

} // verus!
