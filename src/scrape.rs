use vstd::prelude::*;
use vstd::string::*;
use crate::extract::BASE_URL;
use crate::models::{lemma_option_key_injective, option_key, key_position, ProductOption, ShoppingData};
use crate::text::{lower_of, lowercase, push_char, push_str};
use crate::urlcode::{encode, encoded};

verus! {

/// Path and query of the storefront's search page, before the search term.
pub const SEARCH_PATH: &'static str = "/sm/delivery/rsid/404/results?q=";

/// Characters that cannot stand in a directory name and become `_`.
pub open spec fn is_separator(c: char) -> bool {
    c == ' ' || c == '/' || c == '\\'
}

/// `s` with every separator replaced by `_`.
pub open spec fn separators_replaced(s: Seq<char>) -> Seq<char> {
    s.map_values(|c: char| if is_separator(c) { '_' } else { c })
}

/// The directory key of a product name: lower case, separators replaced.
pub open spec fn product_key(name: Seq<char>) -> Seq<char> {
    separators_replaced(lower_of(name))
}

/// Replaces spaces and slashes of an already lower-cased name by `_`.
pub fn replace_separators(s: &str) -> (r: String)
    ensures
        r@ == separators_replaced(s@),
{
    let n = s.unicode_len();
    let mut out = String::new();
    let mut i: usize = 0;
    while i < n
        invariant
            n == s@.len(),
            i <= n,
            out@ == separators_replaced(s@.take(i as int)),
        decreases n - i,
    {
        let c = s.get_char(i);
        if c == ' ' || c == '/' || c == '\\' {
            push_char(&mut out, '_');
        } else {
            push_char(&mut out, c);
        }
        assert(separators_replaced(s@.take(i + 1)) =~= separators_replaced(s@.take(i as int)).push(
            if is_separator(c) { '_' } else { c },
        ));
        i = i + 1;
    }
    assert(s@.take(n as int) =~= s@);
    out
}

/// The directory key under which a product's record is stored.
pub fn record_key(product_name: &str) -> (r: String)
    ensures
        r@ == product_key(product_name@),
{
    let lower = lowercase(product_name);
    replace_separators(lower.as_str())
}

/// The address of the storefront's search results for `product_name`.
pub open spec fn search_address(product_name: Seq<char>) -> Seq<char> {
    BASE_URL@ + SEARCH_PATH@ + encoded(product_name)
}

/// Builds the search address for a product name.
pub fn search_url(product_name: &str) -> (r: String)
    ensures
        r@ == search_address(product_name@),
{
    let mut s = String::from_str(BASE_URL);
    push_str(&mut s, SEARCH_PATH);
    let q = encode(product_name);
    push_str(&mut s, q.as_str());
    s
}

/// What to do for one product name of a scrape run.
#[derive(Debug)]
pub enum ScrapePlan {
    /// A record exists already: nothing is fetched or written.
    Skip,
    /// Search at `url`, then store what is found under directory `key`.
    Search { key: String, url: String },
}

/// Decides the work for one product name, given whether its record exists.
pub fn plan_scrape(product_name: &str, record_exists: bool) -> (r: ScrapePlan)
    ensures
        record_exists <==> r is Skip,
        match r {
            ScrapePlan::Search { key, url } => key@ == product_key(product_name@) && url@
                == search_address(product_name@),
            ScrapePlan::Skip => true,
        },
{
    if record_exists {
        ScrapePlan::Skip
    } else {
        ScrapePlan::Search { key: record_key(product_name), url: search_url(product_name) }
    }
}

/// The record to store for the products a search found: none when nothing
/// was found, else the products under `opt_1`, `opt_2`, ... in order.
pub fn build_record(products: Vec<ProductOption>) -> (r: Option<ShoppingData>)
    ensures
        products@.len() == 0 <==> r is None,
        match r {
            Some(d) => {
                &&& d.wf()
                &&& d.supervalu@.len() == products@.len()
                &&& forall|k: int|
                    0 <= k < products@.len() ==> (#[trigger] d.supervalu@[k]).0@ == option_key(
                        (k + 1) as nat,
                    ) && d.supervalu@[k].1 == products@[k]
            },
            None => true,
        },
{
    if products.len() == 0 {
        return None;
    }
    let n = products.len();
    let mut rest = products;
    let mut data = ShoppingData::new();
    let mut i: usize = 0;
    while i < n
        invariant
            n == products@.len(),
            i <= n,
            rest@ == products@.skip(i as int),
            data.wf(),
            data.supervalu@.len() == i,
            forall|k: int|
                0 <= k < i ==> (#[trigger] data.supervalu@[k]).0@ == option_key((k + 1) as nat)
                    && data.supervalu@[k].1 == products@[k],
        decreases n - i,
    {
        assert(rest@[0] == products@[i as int]);
        let p = rest.remove(0);
        assert(rest@ =~= products@.skip(i + 1));
        let ghost before = data.supervalu@;
        assert(key_position(before, option_key((i + 1) as nat)) == None::<int>) by {
            assert forall|j: int| 0 <= j < before.len() implies before[j].0@ != option_key(
                (i + 1) as nat,
            ) by {
                if before[j].0@ == option_key((i + 1) as nat) {
                    lemma_option_key_injective((j + 1) as nat, (i + 1) as nat);
                }
            };
        };
        data.add_option(i + 1, p);
        assert forall|k: int| 0 <= k < i + 1 implies (#[trigger] data.supervalu@[k]).0@
            == option_key((k + 1) as nat) && data.supervalu@[k].1 == products@[k] by {
            if k < i {
                assert(data.supervalu@[k] == data.supervalu@.drop_last()[k]);
            }
        };
        i = i + 1;
    }
    Some(data)
}

} // verus!
