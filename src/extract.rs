use vstd::prelude::*;
use vstd::string::*;
use crate::models::ProductOption;
use crate::text::{
    has_prefix, push_str, starts_with, substring, trim_end, trimmed_end_len,
};

verus! {

/// Origin of the storefront; relative product paths are resolved against it.
pub const BASE_URL: &'static str = "https://shop.supervalu.ie";

/// At most this many result cards are read per search.
pub const MAX_CARDS: usize = 3;

/// What the page shows on one result card, each text already trimmed; a
/// field the card lacks is empty.
#[derive(Debug)]
pub struct RawCard {
    pub full_name: String,
    pub href: String,
    pub price: String,
    pub unit_price: String,
}

/// A product record as plain character sequences.
pub struct ProductView {
    pub name: Seq<char>,
    pub url: Seq<char>,
    pub price: Seq<char>,
    pub price_per_unit: Seq<char>,
    pub quantity: Option<Seq<char>>,
}

impl View for ProductOption {
    type V = ProductView;

    open spec fn view(&self) -> ProductView {
        ProductView {
            name: self.name@,
            url: self.url@,
            price: self.price@,
            price_per_unit: self.price_per_unit@,
            quantity: match self.quantity {
                Some(q) => Some(q@),
                None => None,
            },
        }
    }
}

/// `p` opens a trailing parenthesised group of `s`: `s[p]` is `(`, the last
/// character is `)`, at least one character stands between them, and none of
/// those is `)`.
pub open spec fn opens_group(s: Seq<char>, p: int) -> bool {
    &&& 0 <= p
    &&& p + 2 < s.len()
    &&& s[p] == '('
    &&& s.last() == ')'
    &&& forall|k: int| p < k < s.len() - 1 ==> s[k] != ')'
}

/// The leftmost position that opens a trailing group, if any.
pub open spec fn group_start(s: Seq<char>) -> Option<int> {
    if exists|p: int| opens_group(s, p) {
        Some(choose|p: int| opens_group(s, p) && forall|q: int| 0 <= q < p ==> !opens_group(s, q))
    } else {
        None
    }
}

/// The name shown on a card, without a trailing quantity group.
pub open spec fn display_name(s: Seq<char>) -> Seq<char> {
    match group_start(s) {
        Some(p) => trim_end(s.subrange(0, p)),
        None => s,
    }
}

/// The quantity in a trailing group, if the name has one.
pub open spec fn display_quantity(s: Seq<char>) -> Option<Seq<char>> {
    match group_start(s) {
        Some(p) => Some(s.subrange(p + 1, s.len() - 1)),
        None => None,
    }
}

/// A link as stored: empty stays empty, one that does not start with `http`
/// gets the storefront origin in front.
pub open spec fn absolute_url(href: Seq<char>) -> Seq<char> {
    if href.len() == 0 || starts_with(href, "http"@) {
        href
    } else {
        BASE_URL@ + href
    }
}

/// The record a card yields.
pub open spec fn card_record(c: RawCard) -> ProductView {
    ProductView {
        name: display_name(c.full_name@),
        url: absolute_url(c.href@),
        price: c.price@,
        price_per_unit: if c.unit_price@.len() > 0 {
            c.unit_price@
        } else {
            c.price@
        },
        quantity: display_quantity(c.full_name@),
    }
}

/// A record is kept when it has a name, and a link or a price.
pub open spec fn is_complete(r: ProductView) -> bool {
    r.name.len() > 0 && (r.url.len() > 0 || r.price.len() > 0)
}

/// The complete records of `cards`, in order.
pub open spec fn complete_records(cards: Seq<RawCard>) -> Seq<ProductView>
    decreases cards.len(),
{
    if cards.len() == 0 {
        Seq::empty()
    } else {
        let r = card_record(cards.last());
        if is_complete(r) {
            complete_records(cards.drop_last()).push(r)
        } else {
            complete_records(cards.drop_last())
        }
    }
}

/// What extraction yields for the cards of a page: the complete records among
/// the first three cards, in page order.
pub open spec fn extracted(cards: Seq<RawCard>) -> Seq<ProductView> {
    complete_records(cards.take(if cards.len() < 3 { cards.len() as int } else { 3 }))
}

/// Splits a displayed product name into the name proper and its trailing
/// quantity group, as in `Organic Bananas (1 kg)`.
pub fn split_quantity(full: &str) -> (r: (String, Option<String>))
    ensures
        r.0@ == display_name(full@),
        match r.1 {
            Some(q) => display_quantity(full@) == Some(q@),
            None => display_quantity(full@).is_none(),
        },
{
    let n = full.unicode_len();
    if n < 3 || full.get_char(n - 1) != ')' {
        proof {
            assert forall|p: int| !opens_group(full@, p) by {};
        }
        return (String::from_str(full), None);
    }
    // Scan leftwards from just before the closing `)`, up to the previous `)`.
    let mut k: usize = n - 1;
    let mut best: Option<usize> = None;
    while k > 0 && full.get_char(k - 1) != ')'
        invariant
            n == full@.len(),
            n >= 3,
            full@.last() == ')',
            k <= n - 1,
            forall|q: int| k <= q < n - 1 ==> full@[q] != ')',
            match best {
                Some(b) => {
                    &&& k <= b < n - 1
                    &&& full@[b as int] == '('
                    &&& forall|q: int| k <= q < b ==> full@[q] != '('
                },
                None => forall|q: int| k <= q < n - 1 ==> full@[q] != '(',
            },
        decreases k,
    {
        if full.get_char(k - 1) == '(' {
            best = Some(k - 1);
        }
        k = k - 1;
    }
    // No position before `k` can open a trailing group.
    assert(forall|q: int| 0 <= q < k ==> !opens_group(full@, q)) by {
        assert forall|q: int| 0 <= q < k implies !opens_group(full@, q) by {
            assert(full@[k - 1] == ')');
            if q < k - 1 {
            } else {
                assert(full@[q] == ')');
            }
        };
    };
    match best {
        Some(b) => {
            if b + 2 < n {
                assert(opens_group(full@, b as int));
                assert forall|q: int| 0 <= q < b implies !opens_group(full@, q) by {
                    if q >= k {
                        assert(full@[q] != '(');
                    }
                };
                let ghost p = group_start(full@).unwrap();
                assert(p == b as int) by {
                    if p < b {
                    } else if p > b {
                        assert(!opens_group(full@, b as int));
                    }
                };
                let end = trimmed_end_len(full, b);
                let name = substring(full, 0, end);
                let qty = substring(full, b + 1, n - 1);
                (name, Some(qty))
            } else {
                assert forall|p: int| !opens_group(full@, p) by {
                    if p >= k && p < b {
                        assert(full@[p] != '(');
                    }
                };
                (String::from_str(full), None)
            }
        },
        None => {
            assert forall|p: int| !opens_group(full@, p) by {
                if p >= k && p < n - 1 {
                    assert(full@[p] != '(');
                }
            };
            (String::from_str(full), None)
        },
    }
}

/// Prefixes a relative link with the storefront origin.
pub fn absolute_link(href: &str) -> (r: String)
    ensures
        r@ == absolute_url(href@),
{
    if href.unicode_len() == 0 || has_prefix(href, "http") {
        String::from_str(href)
    } else {
        let mut s = String::from_str(BASE_URL);
        push_str(&mut s, href);
        s
    }
}

/// The record one card yields, complete or not.
pub fn card_to_record(card: &RawCard) -> (r: ProductOption)
    ensures
        r@ == card_record(*card),
{
    let (name, quantity) = split_quantity(card.full_name.as_str());
    let url = absolute_link(card.href.as_str());
    let price = String::from_str(card.price.as_str());
    let price_per_unit = if card.unit_price.as_str().unicode_len() > 0 {
        String::from_str(card.unit_price.as_str())
    } else {
        String::from_str(card.price.as_str())
    };
    ProductOption { name, url, price, price_per_unit, quantity }
}

fn complete(r: &ProductOption) -> (b: bool)
    ensures
        b == is_complete(r@),
{
    r.name.as_str().unicode_len() > 0 && (r.url.as_str().unicode_len() > 0
        || r.price.as_str().unicode_len() > 0)
}

/// Reads the first three cards of a page and keeps the complete records, in
/// page order.
pub fn extract_products(cards: &Vec<RawCard>) -> (r: Vec<ProductOption>)
    ensures
        r@.len() <= MAX_CARDS,
        r@.map_values(|p: ProductOption| p@) == extracted(cards@),
{
    let limit: usize = if cards.len() < MAX_CARDS { cards.len() } else { MAX_CARDS };
    let mut out: Vec<ProductOption> = Vec::new();
    let mut i: usize = 0;
    while i < limit
        invariant
            limit <= cards@.len(),
            limit <= MAX_CARDS,
            limit == (if cards@.len() < 3 { cards@.len() } else { 3 }),
            i <= limit,
            out@.len() <= i,
            out@.map_values(|p: ProductOption| p@) == complete_records(cards@.take(i as int)),
        decreases limit - i,
    {
        let rec = card_to_record(&cards[i]);
        assert(cards@.take(i + 1).drop_last() =~= cards@.take(i as int));
        if complete(&rec) {
            out.push(rec);
            assert(out@.map_values(|p: ProductOption| p@) =~= complete_records(cards@.take(i + 1)));
        }
        i = i + 1;
    }
    out
}

/// With three or more cards whose first three are complete, extraction
/// yields exactly those three records, in page order.
pub proof fn lemma_three_complete_cards(cards: Seq<RawCard>)
    requires
        cards.len() >= 3,
        forall|k: int| 0 <= k < 3 ==> is_complete(#[trigger] card_record(cards[k])),
    ensures
        extracted(cards).len() == 3,
        forall|k: int| 0 <= k < 3 ==> extracted(cards)[k] == card_record(cards[k]),
{
    let t3 = cards.take(3);
    let t2 = t3.drop_last();
    let t1 = t2.drop_last();
    let t0 = t1.drop_last();
    assert(t0 =~= Seq::<RawCard>::empty());
    assert(t1.last() == cards[0]);
    assert(t2.last() == cards[1]);
    assert(t3.last() == cards[2]);
    let r0 = card_record(cards[0]);
    let r1 = card_record(cards[1]);
    let r2 = card_record(cards[2]);
    assert(complete_records(t0) == Seq::<ProductView>::empty());
    assert(complete_records(t1) == seq![r0]);
    assert(complete_records(t2) == seq![r0].push(r1));
    assert(complete_records(t3) == seq![r0].push(r1).push(r2));
    assert(extracted(cards) == complete_records(t3));
}

/// A name without a trailing quantity group is kept as it is, with no quantity.
pub proof fn lemma_name_without_group(s: Seq<char>)
    requires
        forall|p: int| !opens_group(s, p),
    ensures
        display_name(s) == s,
        display_quantity(s).is_none(),
{
}

} // verus!
