use vstd::prelude::*;
use vstd::string::*;
use crate::extract::BASE_URL;
use crate::text::{has_prefix, push_str, starts_with};

verus! {

/// How one attempt to put a product in the cart ended.
#[derive(Debug, Clone, Copy, PartialEq, Eq, Structural)]
pub enum CartOutcome {
    Added,
    AlreadyInCart,
    OutOfStock,
    NotFound,
}

impl CartOutcome {
    /// Added and already-in-cart both leave the product in the cart.
    pub open spec fn succeeded(self) -> bool {
        self is Added || self is AlreadyInCart
    }

    pub fn is_success(&self) -> (r: bool)
        ensures
            r == self.succeeded(),
    {
        match self {
            CartOutcome::Added | CartOutcome::AlreadyInCart => true,
            _ => false,
        }
    }
}

/// What the page shows for one candidate add-to-cart control; the label is
/// the control's text in lower case.
#[derive(Debug)]
pub struct ButtonProbe {
    pub found: bool,
    pub disabled: bool,
    pub label: String,
}

/// What a product page asks for, once its controls have been probed.
#[derive(Debug, Clone, Copy, PartialEq, Eq, Structural)]
pub enum AddDecision {
    /// Click the control at this position; the product is then added.
    Click(usize),
    AlreadyInCart,
    OutOfStock,
    NotFound,
}

impl AddDecision {
    /// The attempt's outcome once the decision has been carried out.
    pub open spec fn outcome_spec(self) -> CartOutcome {
        match self {
            AddDecision::Click(_) => CartOutcome::Added,
            AddDecision::AlreadyInCart => CartOutcome::AlreadyInCart,
            AddDecision::OutOfStock => CartOutcome::OutOfStock,
            AddDecision::NotFound => CartOutcome::NotFound,
        }
    }

    pub fn outcome(&self) -> (r: CartOutcome)
        ensures
            r == self.outcome_spec(),
    {
        match self {
            AddDecision::Click(_) => CartOutcome::Added,
            AddDecision::AlreadyInCart => CartOutcome::AlreadyInCart,
            AddDecision::OutOfStock => CartOutcome::OutOfStock,
            AddDecision::NotFound => CartOutcome::NotFound,
        }
    }
}

/// `t` occurs in `s`.
pub open spec fn contains(s: Seq<char>, t: Seq<char>) -> bool {
    exists|i: int| 0 <= i && i + t.len() <= s.len() && #[trigger] s.subrange(i, i + t.len()) == t
}

fn occurs_at(s: &str, t: &str, i: usize) -> (r: bool)
    requires
        i + t@.len() <= s@.len(),
    ensures
        r == (s@.subrange(i as int, i + t@.len()) == t@),
{
    let n = s.unicode_len();
    let m = t.unicode_len();
    let mut k: usize = 0;
    while k < m
        invariant
            n == s@.len(),
            m == t@.len(),
            i + m <= s@.len(),
            k <= m,
            forall|j: int| 0 <= j < k ==> s@[i + j] == t@[j],
        decreases m - k,
    {
        if s.get_char(i + k) != t.get_char(k) {
            assert(s@.subrange(i as int, i + t@.len())[k as int] != t@[k as int]);
            return false;
        }
        k = k + 1;
    }
    assert(s@.subrange(i as int, i + t@.len()) =~= t@);
    true
}

/// Whether `t` occurs in `s`.
pub fn contains_text(s: &str, t: &str) -> (r: bool)
    ensures
        r == contains(s@, t@),
{
    let n = s.unicode_len();
    let m = t.unicode_len();
    if m > n {
        return false;
    }
    if m == 0 {
        assert(s@.subrange(0, 0 + t@.len() as int) =~= t@);
        return true;
    }
    let mut i: usize = 0;
    while i <= n - m
        invariant
            n == s@.len(),
            m == t@.len(),
            m <= n,
            i <= n - m + 1,
            m >= 1,
            forall|j: int| 0 <= j < i ==> #[trigger] s@.subrange(j, j + m) != t@,
        decreases n - m + 1 - i,
    {
        if occurs_at(s, t, i) {
            assert(s@.subrange(i as int, i + t@.len()) == t@);
            return true;
        }
        i = i + 1;
    }
    false
}

/// The opinion of one control: click it, the product is in the cart already,
/// or none (missing, disabled, or another label).
pub open spec fn button_opinion(b: ButtonProbe) -> Option<AddDecision> {
    if !b.found || b.disabled {
        None
    } else if contains(b.label@, "add"@) {
        Some(AddDecision::Click(0))
    } else if contains(b.label@, "update"@) || contains(b.label@, "quantity"@) {
        Some(AddDecision::AlreadyInCart)
    } else {
        None
    }
}

/// The decision for the controls from position `i` on: the first control
/// with an opinion wins, else the out-of-stock marker, else not found.
pub open spec fn decision_from(bs: Seq<ButtonProbe>, out_of_stock: bool, i: int) -> AddDecision
    decreases bs.len() - i,
{
    if i < 0 || i >= bs.len() {
        if out_of_stock {
            AddDecision::OutOfStock
        } else {
            AddDecision::NotFound
        }
    } else {
        match button_opinion(bs[i]) {
            Some(AddDecision::Click(_)) => AddDecision::Click(i as usize),
            Some(d) => d,
            None => decision_from(bs, out_of_stock, i + 1),
        }
    }
}

fn opinion(b: &ButtonProbe) -> (r: Option<AddDecision>)
    ensures
        r == button_opinion(*b),
{
    if !b.found || b.disabled {
        None
    } else if contains_text(b.label.as_str(), "add") {
        Some(AddDecision::Click(0))
    } else if contains_text(b.label.as_str(), "update") || contains_text(
        b.label.as_str(),
        "quantity",
    ) {
        Some(AddDecision::AlreadyInCart)
    } else {
        None
    }
}

/// Decides what to do on a product page from its probed controls, in
/// priority order, and whether it shows an out-of-stock marker.
pub fn decide_add(buttons: &Vec<ButtonProbe>, out_of_stock: bool) -> (r: AddDecision)
    ensures
        r == decision_from(buttons@, out_of_stock, 0),
        match r {
            AddDecision::Click(i) => i < buttons@.len(),
            _ => true,
        },
{
    let n = buttons.len();
    let mut i: usize = 0;
    while i < n
        invariant
            n == buttons@.len(),
            i <= n,
            decision_from(buttons@, out_of_stock, 0) == decision_from(buttons@, out_of_stock, i as int),
        decreases n - i,
    {
        match opinion(&buttons[i]) {
            Some(AddDecision::Click(_)) => {
                return AddDecision::Click(i);
            },
            Some(d) => {
                return d;
            },
            None => {},
        }
        i = i + 1;
    }
    if out_of_stock {
        AddDecision::OutOfStock
    } else {
        AddDecision::NotFound
    }
}

/// The signs of a signed-in session that a page shows.
#[derive(Debug, Clone, Copy, PartialEq, Eq, Structural)]
pub struct LoginProbe {
    pub sign_in_control: bool,
    pub log_out_control: bool,
    pub account_menu: bool,
}

impl LoginProbe {
    /// A sign-in control means signed out; otherwise a log-out control or an
    /// account menu means signed in; neither counts as signed out.
    pub open spec fn signed_in(self) -> bool {
        !self.sign_in_control && (self.log_out_control || self.account_menu)
    }

    pub fn is_logged_in(&self) -> (r: bool)
        ensures
            r == self.signed_in(),
    {
        !self.sign_in_control && (self.log_out_control || self.account_menu)
    }
}

/// The page to open for a product link: absolute links as they are, paths
/// under the storefront origin, anything else unusable.
pub open spec fn product_address(url: Seq<char>) -> Option<Seq<char>> {
    if starts_with(url, "http://"@) || starts_with(url, "https://"@) {
        Some(url)
    } else if starts_with(url, "/"@) {
        Some(BASE_URL@ + url)
    } else {
        None
    }
}

/// Resolves a product link to the address to open, if it is usable.
pub fn resolve_product_url(url: &str) -> (r: Option<String>)
    ensures
        match r {
            Some(s) => product_address(url@) == Some(s@),
            None => product_address(url@).is_none(),
        },
{
    if has_prefix(url, "http://") || has_prefix(url, "https://") {
        Some(String::from_str(url))
    } else if has_prefix(url, "/") {
        let mut s = String::from_str(BASE_URL);
        push_str(&mut s, url);
        Some(s)
    } else {
        None
    }
}

} // verus!
