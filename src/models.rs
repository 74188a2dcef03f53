use vstd::prelude::*;
use vstd::string::*;
use crate::text::{decimal, lemma_decimal_injective, push_char, push_decimal};

verus! {

/// One product found by a search, as shown on its result card.
#[derive(Debug)]
pub struct ProductOption {
    pub name: String,
    pub url: String,
    pub price: String,
    pub price_per_unit: String,
    pub quantity: Option<String>,
}

/// The stored record of one search: options keyed `opt_1`, `opt_2`, ...
///
/// `supervalu` holds the key/option pairs in insertion order, each key once.
#[derive(Debug)]
pub struct ShoppingData {
    pub supervalu: Vec<(String, ProductOption)>,
}

/// The key under which the option with 1-based position `index` is stored.
pub open spec fn option_key(index: nat) -> Seq<char> {
    seq!['o', 'p', 't', '_'] + decimal(index)
}

/// Where `key` stands among `entries`, if it does.
pub open spec fn key_position(entries: Seq<(String, ProductOption)>, key: Seq<char>) -> Option<int> {
    if exists|j: int| 0 <= j < entries.len() && entries[j].0@ == key {
        Some(choose|j: int| 0 <= j < entries.len() && entries[j].0@ == key)
    } else {
        None
    }
}

/// Different positions have different keys.
pub proof fn lemma_option_key_injective(a: nat, b: nat)
    requires
        option_key(a) == option_key(b),
    ensures
        a == b,
{
    assert(option_key(a).skip(4) =~= decimal(a));
    assert(option_key(b).skip(4) =~= decimal(b));
    lemma_decimal_injective(a, b);
}

/// Builds the key `opt_<index>`.
pub fn option_key_string(index: usize) -> (r: String)
    ensures
        r@ == option_key(index as nat),
{
    let mut s = String::new();
    push_char(&mut s, 'o');
    push_char(&mut s, 'p');
    push_char(&mut s, 't');
    push_char(&mut s, '_');
    push_decimal(&mut s, index);
    assert(s@ =~= option_key(index as nat));
    s
}

impl ShoppingData {
    /// No key occurs twice.
    pub open spec fn wf(&self) -> bool {
        forall|i: int, j: int|
            0 <= i < j < self.supervalu@.len() ==> self.supervalu@[i].0@ != self.supervalu@[j].0@
    }

    /// An empty record.
    pub fn new() -> (r: Self)
        ensures
            r.wf(),
            r.supervalu@.len() == 0,
    {
        ShoppingData { supervalu: Vec::new() }
    }

    /// Stores `option` under `opt_<index>`, replacing an option stored there before.
    pub fn add_option(&mut self, index: usize, option: ProductOption)
        requires
            old(self).wf(),
        ensures
            final(self).wf(),
            ({
                let key = option_key(index as nat);
                match key_position(old(self).supervalu@, key) {
                    Some(j) => final(self).supervalu@ == old(self).supervalu@.update(
                        j,
                        (final(self).supervalu@[j].0, option),
                    ) && final(self).supervalu@[j].0@ == key,
                    None => final(self).supervalu@.len() == old(self).supervalu@.len() + 1
                        && final(self).supervalu@.drop_last() == old(self).supervalu@
                        && final(self).supervalu@.last().0@ == key
                        && final(self).supervalu@.last().1 == option,
                }
            }),
    {
        let key = option_key_string(index);
        let n = self.supervalu.len();
        let mut i: usize = 0;
        while i < n
            invariant
                n == self.supervalu@.len(),
                i <= n,
                self.supervalu@ == old(self).supervalu@,
                old(self).wf(),
                key@ == option_key(index as nat),
                forall|j: int| 0 <= j < i ==> self.supervalu@[j].0@ != key@,
            decreases n - i,
        {
            if self.supervalu[i].0 == key {
                let ghost before = self.supervalu@;
                proof {
                    assert(before[i as int].0@ == key@);
                    assert forall|j: int| 0 <= j < before.len() && before[j].0@ == key@ implies j
                        == i by {
                        if j > i {
                            assert(before[i as int].0@ == before[j].0@);
                        }
                    };
                }
                let k = self.supervalu[i].0.clone();
                self.supervalu.set(i, (k, option));
                return;
            }
            i = i + 1;
        }
        assert(key_position(self.supervalu@, key@) == None::<int>);
        self.supervalu.push((key, option));
    }
}

/// One line of a shopping list.
#[derive(Debug)]
pub struct ShoppingItem {
    pub name: String,
    pub amount: Option<String>,
    pub link: String,
    pub backup_link: Option<String>,
}

/// A shopping list: its items in order.
#[derive(Debug)]
pub struct ShoppingList {
    pub items: Vec<ShoppingItem>,
}

} // verus!
