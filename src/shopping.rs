use vstd::prelude::*;
use vstd::string::*;
use crate::cart::{product_address, resolve_product_url, CartOutcome};
use crate::models::{ShoppingItem, ShoppingList};

verus! {

/// Which of an item's two links an attempt used.
#[derive(Debug, Clone, Copy, PartialEq, Eq, Structural)]
pub enum LinkChoice {
    Primary,
    Backup,
}

/// How far an item has got: nothing tried yet, or its primary link failed.
#[derive(Debug, Clone, Copy, PartialEq, Eq, Structural)]
pub enum ItemStage {
    Start,
    PrimaryFailed,
}

/// What became of one item of the list.
#[derive(Debug, Clone, Copy, PartialEq, Eq, Structural)]
pub enum ItemOutcome {
    /// In the cart, added now or found there already.
    Added,
    /// Neither link was given, so nothing was tried.
    NoLink,
    /// A link was tried and did not put the product in the cart.
    AttemptFailed,
}

/// What came back from visiting a product page.
#[derive(Debug, Clone, Copy, PartialEq, Eq, Structural)]
pub enum AttemptResult {
    Outcome(CartOutcome),
    /// The browser failed to open or read the page.
    DriverError,
}

/// The next thing to do for an item.
#[derive(Debug)]
pub enum ItemStep {
    Visit { link: LinkChoice, url: String },
    Done(ItemOutcome),
}

/// An item step as plain values.
pub enum ItemStepView {
    Visit(LinkChoice, Seq<char>),
    Done(ItemOutcome),
}

impl ItemStep {
    pub open spec fn view(&self) -> ItemStepView {
        match self {
            ItemStep::Visit { link, url } => ItemStepView::Visit(*link, url@),
            ItemStep::Done(o) => ItemStepView::Done(*o),
        }
    }
}

/// What follows an attempt: the item is done, or its backup link is next.
#[derive(Debug, Clone, Copy, PartialEq, Eq, Structural)]
pub enum AfterAttempt {
    Done(ItemOutcome),
    TryBackup,
}

/// The backup link, when one is given and non-empty.
pub open spec fn backup_link(item: ShoppingItem) -> Option<Seq<char>> {
    match item.backup_link {
        Some(b) => if b@.len() > 0 {
            Some(b@)
        } else {
            None
        },
        None => None,
    }
}

/// The item has a link that can be tried.
pub open spec fn has_usable_link(item: ShoppingItem) -> bool {
    item.link@.len() > 0 || backup_link(item).is_some()
}

/// The backup link's turn; `tried` tells whether the primary was attempted.
pub open spec fn backup_step(item: ShoppingItem, tried: bool) -> ItemStepView {
    match backup_link(item) {
        Some(b) => match product_address(b) {
            Some(u) => ItemStepView::Visit(LinkChoice::Backup, u),
            None => ItemStepView::Done(ItemOutcome::AttemptFailed),
        },
        None => if tried {
            ItemStepView::Done(ItemOutcome::AttemptFailed)
        } else {
            ItemStepView::Done(ItemOutcome::NoLink)
        },
    }
}

/// The next step for an item: its primary link first, when there is one and
/// it can be opened; then its backup link; a link that cannot be opened
/// counts as a failed attempt.
pub open spec fn item_step_spec(item: ShoppingItem, stage: ItemStage) -> ItemStepView {
    match stage {
        ItemStage::Start => if item.link@.len() > 0 {
            match product_address(item.link@) {
                Some(u) => ItemStepView::Visit(LinkChoice::Primary, u),
                None => backup_step(item, true),
            }
        } else {
            backup_step(item, false)
        },
        ItemStage::PrimaryFailed => backup_step(item, true),
    }
}

/// What follows an attempt: success ends the item as added; a driver error
/// ends it as failed; a failed primary hands over to the backup.
pub open spec fn after_attempt_spec(link: LinkChoice, result: AttemptResult) -> AfterAttempt {
    match result {
        AttemptResult::Outcome(o) => if o.succeeded() {
            AfterAttempt::Done(ItemOutcome::Added)
        } else if link is Primary {
            AfterAttempt::TryBackup
        } else {
            AfterAttempt::Done(ItemOutcome::AttemptFailed)
        },
        AttemptResult::DriverError => AfterAttempt::Done(ItemOutcome::AttemptFailed),
    }
}

fn backup_step_of(item: &ShoppingItem, tried: bool) -> (r: ItemStep)
    ensures
        r.view() == backup_step(*item, tried),
{
    match &item.backup_link {
        Some(b) => {
            if b.as_str().unicode_len() > 0 {
                match resolve_product_url(b.as_str()) {
                    Some(u) => ItemStep::Visit { link: LinkChoice::Backup, url: u },
                    None => ItemStep::Done(ItemOutcome::AttemptFailed),
                }
            } else if tried {
                ItemStep::Done(ItemOutcome::AttemptFailed)
            } else {
                ItemStep::Done(ItemOutcome::NoLink)
            }
        },
        None => {
            if tried {
                ItemStep::Done(ItemOutcome::AttemptFailed)
            } else {
                ItemStep::Done(ItemOutcome::NoLink)
            }
        },
    }
}

/// Decides the next step for an item at the given stage.
pub fn item_step(item: &ShoppingItem, stage: ItemStage) -> (r: ItemStep)
    ensures
        r.view() == item_step_spec(*item, stage),
{
    match stage {
        ItemStage::Start => {
            if item.link.as_str().unicode_len() > 0 {
                match resolve_product_url(item.link.as_str()) {
                    Some(u) => ItemStep::Visit { link: LinkChoice::Primary, url: u },
                    None => backup_step_of(item, true),
                }
            } else {
                backup_step_of(item, false)
            }
        },
        ItemStage::PrimaryFailed => backup_step_of(item, true),
    }
}

/// Decides what follows an attempt on the given link.
pub fn after_attempt(link: LinkChoice, result: AttemptResult) -> (r: AfterAttempt)
    ensures
        r == after_attempt_spec(link, result),
{
    match result {
        AttemptResult::Outcome(o) => {
            if o.is_success() {
                AfterAttempt::Done(ItemOutcome::Added)
            } else {
                match link {
                    LinkChoice::Primary => AfterAttempt::TryBackup,
                    LinkChoice::Backup => AfterAttempt::Done(ItemOutcome::AttemptFailed),
                }
            }
        },
        AttemptResult::DriverError => AfterAttempt::Done(ItemOutcome::AttemptFailed),
    }
}

/// When the primary link finds the product out of stock and the backup link
/// adds it, the item ends as added.
pub proof fn lemma_backup_rescues_item(item: ShoppingItem)
    requires
        item.link@.len() > 0,
        product_address(item.link@).is_some(),
        backup_link(item).is_some(),
        product_address(backup_link(item).unwrap()).is_some(),
    ensures
        item_step_spec(item, ItemStage::Start) == ItemStepView::Visit(
            LinkChoice::Primary,
            product_address(item.link@).unwrap(),
        ),
        after_attempt_spec(LinkChoice::Primary, AttemptResult::Outcome(CartOutcome::OutOfStock))
            == AfterAttempt::TryBackup,
        item_step_spec(item, ItemStage::PrimaryFailed) == ItemStepView::Visit(
            LinkChoice::Backup,
            product_address(backup_link(item).unwrap()).unwrap(),
        ),
        after_attempt_spec(LinkChoice::Backup, AttemptResult::Outcome(CartOutcome::Added))
            == AfterAttempt::Done(ItemOutcome::Added),
{
}

/// A visit is only ever asked for an item with a usable link.
pub proof fn lemma_visit_needs_link(item: ShoppingItem, stage: ItemStage)
    ensures
        item_step_spec(item, stage) is Visit ==> has_usable_link(item),
{
}

/// An item is recorded as having no link exactly when it has no usable link.
pub proof fn lemma_no_link_only_without_links(item: ShoppingItem, stage: ItemStage)
    ensures
        item_step_spec(item, stage) == ItemStepView::Done(ItemOutcome::NoLink) <==> (stage is Start
            && !has_usable_link(item)),
{
}

/// How many of `items` have no usable link.
pub open spec fn unlinked_count(items: Seq<ShoppingItem>) -> nat
    decreases items.len(),
{
    if items.len() == 0 {
        0
    } else {
        unlinked_count(items.drop_last()) + if has_usable_link(items.last()) {
            0nat
        } else {
            1nat
        }
    }
}

/// How many of `outs` are `Added`.
pub open spec fn added_total(outs: Seq<ItemOutcome>) -> nat
    decreases outs.len(),
{
    if outs.len() == 0 {
        0
    } else {
        added_total(outs.drop_last()) + if outs.last() == ItemOutcome::Added {
            1nat
        } else {
            0nat
        }
    }
}

/// The reason under which an item that was not added is listed.
pub open spec fn reason_of(o: ItemOutcome) -> FailReason {
    if o == ItemOutcome::NoLink {
        FailReason::NoLink
    } else {
        FailReason::AttemptFailed
    }
}

/// Name and reason of each item not added, in list order, given the
/// outcomes of the first items.
pub open spec fn failed_view(items: Seq<ShoppingItem>, outs: Seq<ItemOutcome>) -> Seq<(Seq<char>, FailReason)>
    decreases outs.len(),
{
    if outs.len() == 0 {
        Seq::empty()
    } else {
        let rest = failed_view(items, outs.drop_last());
        if outs.last() == ItemOutcome::Added {
            rest
        } else {
            rest.push((items[outs.len() - 1].name@, reason_of(outs.last())))
        }
    }
}

/// Name and reason of a listed item.
pub open spec fn failed_entry(f: FailedItem) -> (Seq<char>, FailReason) {
    (f.name@, f.reason)
}

/// Why an item is listed as not added.
#[derive(Debug, Clone, Copy, PartialEq, Eq, Structural)]
pub enum FailReason {
    NoLink,
    AttemptFailed,
}

/// An item that needs attention by hand.
#[derive(Debug)]
pub struct FailedItem {
    pub name: String,
    pub reason: FailReason,
}

/// What the run asks of the browser next.
#[derive(Debug)]
pub enum ShopAction {
    /// Open `url` and try to put the product of item `item` in the cart.
    Visit { item: usize, url: String },
    /// Every item has been dealt with.
    Finished,
}

/// A shopping run over a list, one item at a time: the decisions, with the
/// running tally of added items and of items that need attention.
#[derive(Debug)]
pub struct ShoppingRun {
    pub items: Vec<ShoppingItem>,
    /// Items before this position are done.
    pub next: usize,
    pub stage: ItemStage,
    /// The link whose attempt is awaited, if any.
    pub waiting: Option<LinkChoice>,
    pub added_count: usize,
    pub failed_items: Vec<FailedItem>,
    /// The outcome of each item done so far, in list order.
    pub outcomes: Vec<ItemOutcome>,
}

impl ShoppingRun {
    pub open spec fn wf(&self) -> bool {
        &&& self.next <= self.items@.len() <= usize::MAX
        &&& self.added_count + self.failed_items@.len() == self.next
        &&& self.outcomes@.len() == self.next
        &&& forall|k: int|
            0 <= k < self.next ==> (#[trigger] self.outcomes@[k] == ItemOutcome::NoLink)
                == !has_usable_link(self.items@[k])
        &&& self.added_count == added_total(self.outcomes@)
        &&& self.failed_items@.map_values(|f: FailedItem| failed_entry(f)) == failed_view(
            self.items@,
            self.outcomes@,
        )
        &&& self.waiting.is_some() ==> self.next < self.items@.len()
        &&& self.waiting.is_some() ==> has_usable_link(self.items@[self.next as int])
        &&& self.stage == ItemStage::PrimaryFailed ==> self.next < self.items@.len() && has_usable_link(
            self.items@[self.next as int],
        )
        &&& names_with_reason(self.failed_items@, FailReason::NoLink).len() == unlinked_count(
            self.items@.take(self.next as int),
        )
    }

    /// Every item has been dealt with.
    pub open spec fn finished(&self) -> bool {
        self.next == self.items@.len() && self.waiting.is_none()
    }

    /// A run that has not started on `list`.
    pub fn new(list: ShoppingList) -> (r: Self)
        ensures
            r.wf(),
            r.items@ == list.items@,
            r.next == 0,
            r.stage == ItemStage::Start,
            r.waiting.is_none(),
    {
        let _n = list.items.len();
        let r = ShoppingRun {
            items: list.items,
            next: 0,
            stage: ItemStage::Start,
            waiting: None,
            added_count: 0,
            failed_items: Vec::new(),
            outcomes: Vec::new(),
        };
        assert(r.failed_items@.map_values(|f: FailedItem| failed_entry(f)) =~= failed_view(
            r.items@,
            r.outcomes@,
        ));
        assert(r.items@.take(0) =~= Seq::<ShoppingItem>::empty());
        r
    }

    /// Closes the current item with `outcome` and moves to the next one.
    fn finish_item(&mut self, outcome: ItemOutcome)
        requires
            old(self).wf(),
            old(self).next < old(self).items@.len(),
            (outcome == ItemOutcome::NoLink) == !has_usable_link(old(self).items@[old(self).next as int]),
        ensures
            final(self).wf(),
            final(self).items@ == old(self).items@,
            final(self).next == old(self).next + 1,
            final(self).stage == ItemStage::Start,
            final(self).waiting.is_none(),
            final(self).outcomes@ == old(self).outcomes@.push(outcome),
            outcome == ItemOutcome::Added ==> final(self).added_count == old(self).added_count + 1
                && final(self).failed_items@ == old(self).failed_items@,
            outcome != ItemOutcome::Added ==> final(self).added_count == old(self).added_count
                && final(self).failed_items@.drop_last() == old(self).failed_items@
                && final(self).failed_items@.last().name@ == old(self).items@[old(self).next as int].name@
                && final(self).failed_items@.last().reason == (if outcome == ItemOutcome::NoLink {
                    FailReason::NoLink
                } else {
                    FailReason::AttemptFailed
                }),
    {
        match outcome {
            ItemOutcome::Added => {
                self.added_count = self.added_count + 1;
            },
            ItemOutcome::NoLink => {
                let name = self.items[self.next].name.clone();
                self.failed_items.push(FailedItem { name, reason: FailReason::NoLink });
            },
            ItemOutcome::AttemptFailed => {
                let name = self.items[self.next].name.clone();
                self.failed_items.push(FailedItem { name, reason: FailReason::AttemptFailed });
            },
        }
        self.outcomes.push(outcome);
        proof {
            let items = self.items@;
            let k = self.next as int;
            assert(self.outcomes@.drop_last() =~= old(self).outcomes@);
            assert(self.failed_items@.map_values(|f: FailedItem| failed_entry(f)) =~= failed_view(
                items,
                self.outcomes@,
            ));
            assert(items.take(k + 1).drop_last() =~= items.take(k));
            assert(items.take(k + 1).last() == items[k]);
            assert(self.failed_items@.len() > 0 ==> self.failed_items@.drop_last()
                =~= old(self).failed_items@ || outcome == ItemOutcome::Added);
        }
        self.next = self.next + 1;
        self.stage = ItemStage::Start;
        self.waiting = None;
    }

    /// Settles every item that needs no page visit and returns the next page
    /// to visit, or `Finished` once all items are done.
    pub fn next_action(&mut self) -> (r: ShopAction)
        requires
            old(self).wf(),
            old(self).waiting.is_none(),
        ensures
            final(self).wf(),
            final(self).items@ == old(self).items@,
            final(self).next >= old(self).next,
            final(self).outcomes@.take(old(self).next as int) == old(self).outcomes@,
            forall|k: int|
                old(self).next <= k < final(self).next ==> item_step_spec(
                    final(self).items@[k],
                    if k == old(self).next {
                        old(self).stage
                    } else {
                        ItemStage::Start
                    },
                ) == ItemStepView::Done(#[trigger] final(self).outcomes@[k]),
            final(self).stage == (if final(self).next == old(self).next {
                old(self).stage
            } else {
                ItemStage::Start
            }),
            match r {
                ShopAction::Visit { item, url } => {
                    &&& item == final(self).next
                    &&& final(self).waiting.is_some()
                    &&& item_step_spec(final(self).items@[item as int], final(self).stage)
                        == ItemStepView::Visit(final(self).waiting.unwrap(), url@)
                },
                ShopAction::Finished => final(self).finished(),
            },
    {
        while self.next < self.items.len()
            invariant
                self.wf(),
                self.items@ == old(self).items@,
                self.next >= old(self).next,
                self.waiting.is_none(),
                self.outcomes@.take(old(self).next as int) == old(self).outcomes@,
                forall|k: int|
                    old(self).next <= k < self.next ==> item_step_spec(
                        self.items@[k],
                        if k == old(self).next {
                            old(self).stage
                        } else {
                            ItemStage::Start
                        },
                    ) == ItemStepView::Done(#[trigger] self.outcomes@[k]),
                self.stage == (if self.next == old(self).next {
                    old(self).stage
                } else {
                    ItemStage::Start
                }),
            decreases self.items@.len() - self.next,
        {
            let step = item_step(&self.items[self.next], self.stage);
            match step {
                ItemStep::Visit { link, url } => {
                    proof {
                        lemma_visit_needs_link(self.items@[self.next as int], self.stage);
                    }
                    self.waiting = Some(link);
                    return ShopAction::Visit { item: self.next, url };
                },
                ItemStep::Done(outcome) => {
                    proof {
                        lemma_no_link_only_without_links(
                            self.items@[self.next as int],
                            self.stage,
                        );
                    }
                    let ghost before = self.outcomes@;
                    self.finish_item(outcome);
                    assert(self.outcomes@.take(old(self).next as int) =~= before.take(
                        old(self).next as int,
                    ));
                },
            }
        }
        ShopAction::Finished
    }

    /// Takes in what the awaited attempt came to.
    pub fn report(&mut self, result: AttemptResult)
        requires
            old(self).wf(),
            old(self).waiting.is_some(),
        ensures
            final(self).wf(),
            final(self).items@ == old(self).items@,
            final(self).waiting.is_none(),
            match after_attempt_spec(old(self).waiting.unwrap(), result) {
                AfterAttempt::TryBackup => final(self).outcomes@ == old(self).outcomes@,
                AfterAttempt::Done(o) => final(self).outcomes@ == old(self).outcomes@.push(o),
            },
            match after_attempt_spec(old(self).waiting.unwrap(), result) {
                AfterAttempt::TryBackup => final(self).next == old(self).next && final(self).stage
                    == ItemStage::PrimaryFailed && final(self).added_count == old(
                    self,
                ).added_count && final(self).failed_items@ == old(self).failed_items@,
                AfterAttempt::Done(ItemOutcome::Added) => final(self).next == old(self).next + 1
                    && final(self).added_count == old(self).added_count + 1
                    && final(self).failed_items@ == old(self).failed_items@,
                AfterAttempt::Done(_) => final(self).next == old(self).next + 1
                    && final(self).added_count == old(self).added_count
                    && final(self).failed_items@.drop_last() == old(self).failed_items@
                    && final(self).failed_items@.last().reason == FailReason::AttemptFailed,
            },
    {
        let link = match self.waiting {
            Some(l) => l,
            None => LinkChoice::Primary,
        };
        match after_attempt(link, result) {
            AfterAttempt::TryBackup => {
                self.stage = ItemStage::PrimaryFailed;
                self.waiting = None;
            },
            AfterAttempt::Done(outcome) => {
                self.finish_item(outcome);
            },
        }
    }
}

/// When a run is finished, the items added and the items listed as needing
/// attention together account for every item of the list, and the items
/// listed for want of a link are exactly those without a usable link.
pub proof fn lemma_every_item_accounted(run: ShoppingRun)
    requires
        run.wf(),
        run.finished(),
    ensures
        run.outcomes@.len() == run.items@.len(),
        run.added_count == added_total(run.outcomes@),
        run.failed_items@.map_values(|f: FailedItem| failed_entry(f)) == failed_view(
            run.items@,
            run.outcomes@,
        ),
        forall|k: int|
            0 <= k < run.items@.len() ==> (#[trigger] run.outcomes@[k] == ItemOutcome::NoLink)
                == !has_usable_link(run.items@[k]),
        run.added_count + run.failed_items@.len() == run.items@.len(),
        names_with_reason(run.failed_items@, FailReason::NoLink).len() == unlinked_count(
            run.items@,
        ),
        run.added_count + names_with_reason(run.failed_items@, FailReason::AttemptFailed).len()
            + unlinked_count(run.items@) == run.items@.len(),
{
    assert(run.items@.take(run.next as int) =~= run.items@);
    lemma_reasons_partition(run.failed_items@);
}

/// The names of the failed items with the given reason, in order.
pub open spec fn names_with_reason(failed: Seq<FailedItem>, reason: FailReason) -> Seq<Seq<char>>
    decreases failed.len(),
{
    if failed.len() == 0 {
        Seq::empty()
    } else {
        let rest = names_with_reason(failed.drop_last(), reason);
        if failed.last().reason == reason {
            rest.push(failed.last().name@)
        } else {
            rest
        }
    }
}

/// Every failed item has one of the two reasons.
pub proof fn lemma_reasons_partition(failed: Seq<FailedItem>)
    ensures
        names_with_reason(failed, FailReason::NoLink).len() + names_with_reason(
            failed,
            FailReason::AttemptFailed,
        ).len() == failed.len(),
    decreases failed.len(),
{
    if failed.len() > 0 {
        lemma_reasons_partition(failed.drop_last());
    }
}

/// Splits the items needing attention into those skipped for want of a link
/// and those whose attempts failed, each list in run order.
pub fn split_failed(failed: &Vec<FailedItem>) -> (r: (Vec<String>, Vec<String>))
    ensures
        r.0@.map_values(|n: String| n@) == names_with_reason(failed@, FailReason::NoLink),
        r.1@.map_values(|n: String| n@) == names_with_reason(failed@, FailReason::AttemptFailed),
{
    let mut no_link: Vec<String> = Vec::new();
    let mut other: Vec<String> = Vec::new();
    let mut i: usize = 0;
    while i < failed.len()
        invariant
            i <= failed@.len(),
            no_link@.map_values(|n: String| n@) == names_with_reason(
                failed@.take(i as int),
                FailReason::NoLink,
            ),
            other@.map_values(|n: String| n@) == names_with_reason(
                failed@.take(i as int),
                FailReason::AttemptFailed,
            ),
        decreases failed@.len() - i,
    {
        assert(failed@.take(i + 1).drop_last() =~= failed@.take(i as int));
        let name = failed[i].name.clone();
        match failed[i].reason {
            FailReason::NoLink => {
                no_link.push(name);
            },
            FailReason::AttemptFailed => {
                other.push(name);
            },
        }
        assert(no_link@.map_values(|n: String| n@) =~= names_with_reason(
            failed@.take(i + 1),
            FailReason::NoLink,
        ));
        assert(other@.map_values(|n: String| n@) =~= names_with_reason(
            failed@.take(i + 1),
            FailReason::AttemptFailed,
        ));
        i = i + 1;
    }
    assert(failed@.take(i as int) =~= failed@);
    (no_link, other)
}

} // verus!
