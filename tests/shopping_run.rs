use shop_automation::cart::{decide_add, contains_text, resolve_product_url, AddDecision, ButtonProbe, CartOutcome, LoginProbe};
use shop_automation::models::{ShoppingItem, ShoppingList};
use shop_automation::shopping::{
    after_attempt, item_step, split_failed, AfterAttempt, AttemptResult, FailReason, ItemOutcome, ItemStage,
    ItemStep, LinkChoice, ShopAction, ShoppingRun,
};

fn item(name: &str, link: &str, backup: Option<&str>) -> ShoppingItem {
    ShoppingItem {
        name: name.to_string(),
        amount: None,
        link: link.to_string(),
        backup_link: backup.map(|b| b.to_string()),
    }
}

fn button(found: bool, disabled: bool, label: &str) -> ButtonProbe {
    ButtonProbe { found, disabled, label: label.to_string() }
}

/// Runs a list, answering each visit from `answers` in turn.
fn run(items: Vec<ShoppingItem>, answers: &[AttemptResult]) -> (ShoppingRun, Vec<String>) {
    let mut r = ShoppingRun::new(ShoppingList { items });
    let mut visited = Vec::new();
    let mut k = 0;
    loop {
        match r.next_action() {
            ShopAction::Visit { url, .. } => {
                visited.push(url);
                r.report(answers[k]);
                k += 1;
            }
            ShopAction::Finished => break,
        }
    }
    (r, visited)
}

#[test]
fn backup_rescues_out_of_stock_primary() {
    let (r, visited) = run(
        vec![item("Milk", "/product/milk-1", Some("/product/milk-2"))],
        &[AttemptResult::Outcome(CartOutcome::OutOfStock), AttemptResult::Outcome(CartOutcome::Added)],
    );
    assert_eq!(visited, vec![
        "https://shop.supervalu.ie/product/milk-1".to_string(),
        "https://shop.supervalu.ie/product/milk-2".to_string(),
    ]);
    assert_eq!(r.added_count, 1);
    assert!(r.failed_items.is_empty());
}

#[test]
fn every_item_accounted() {
    let (r, _) = run(
        vec![
            item("A", "https://shop.supervalu.ie/product/a", None),
            item("B", "", None),
            item("C", "/product/c", Some("")),
            item("D", "", Some("/product/d")),
            item("E", "bad-link", None),
            item("F", "/product/f", None),
        ],
        &[
            AttemptResult::Outcome(CartOutcome::Added),
            AttemptResult::Outcome(CartOutcome::NotFound),
            AttemptResult::Outcome(CartOutcome::AlreadyInCart),
            AttemptResult::DriverError,
        ],
    );
    assert_eq!(r.added_count, 2);
    assert_eq!(r.added_count + r.failed_items.len(), 6);
    let (no_link, other) = split_failed(&r.failed_items);
    assert_eq!(no_link, vec!["B".to_string()]);
    assert_eq!(other, vec!["C".to_string(), "E".to_string(), "F".to_string()]);
}

#[test]
fn empty_list_finishes_at_once() {
    let (r, visited) = run(Vec::new(), &[]);
    assert!(visited.is_empty());
    assert_eq!(r.added_count, 0);
    assert!(r.failed_items.is_empty());
}

#[test]
fn item_without_links_is_no_link() {
    match item_step(&item("X", "", Some("")), ItemStage::Start) {
        ItemStep::Done(o) => assert_eq!(o, ItemOutcome::NoLink),
        _ => panic!("expected no link"),
    }
}

#[test]
fn driver_error_ends_item() {
    assert_eq!(
        after_attempt(LinkChoice::Primary, AttemptResult::DriverError),
        AfterAttempt::Done(ItemOutcome::AttemptFailed)
    );
    assert_eq!(
        after_attempt(LinkChoice::Primary, AttemptResult::Outcome(CartOutcome::NotFound)),
        AfterAttempt::TryBackup
    );
    assert_eq!(
        after_attempt(LinkChoice::Backup, AttemptResult::Outcome(CartOutcome::OutOfStock)),
        AfterAttempt::Done(ItemOutcome::AttemptFailed)
    );
}

#[test]
fn failed_reasons_kept() {
    let (r, _) = run(vec![item("Z", "", None)], &[]);
    assert_eq!(r.failed_items[0].reason, FailReason::NoLink);
    assert_eq!(r.failed_items[0].name, "Z");
}

#[test]
fn first_enabled_control_decides() {
    let b = vec![
        button(false, false, ""),
        button(true, true, "add to trolley"),
        button(true, false, "save for later"),
        button(true, false, "add to trolley"),
    ];
    assert_eq!(decide_add(&b, true), AddDecision::Click(3));
}

#[test]
fn update_control_means_in_cart() {
    let b = vec![button(true, false, "update quantity"), button(true, false, "add")];
    assert_eq!(decide_add(&b, false), AddDecision::AlreadyInCart);
    assert_eq!(decide_add(&b, false).outcome(), CartOutcome::AlreadyInCart);
}

#[test]
fn out_of_stock_and_not_found() {
    let b = vec![button(true, true, "add")];
    assert_eq!(decide_add(&b, true), AddDecision::OutOfStock);
    assert_eq!(decide_add(&b, false), AddDecision::NotFound);
    assert!(!CartOutcome::OutOfStock.is_success());
    assert!(CartOutcome::AlreadyInCart.is_success());
}

#[test]
fn substring_search() {
    assert!(contains_text("add to cart", "to c"));
    assert!(!contains_text("ad", "add"));
    assert!(contains_text("x", ""));
}

#[test]
fn product_links_resolved() {
    assert_eq!(resolve_product_url("/product/a").as_deref(), Some("https://shop.supervalu.ie/product/a"));
    assert_eq!(resolve_product_url("http://x.ie/p").as_deref(), Some("http://x.ie/p"));
    assert_eq!(resolve_product_url("product/a"), None);
    assert_eq!(resolve_product_url(""), None);
}

#[test]
fn login_probe_fails_safe() {
    let p = |s, l, a| LoginProbe { sign_in_control: s, log_out_control: l, account_menu: a };
    assert!(p(false, true, false).is_logged_in());
    assert!(p(false, false, true).is_logged_in());
    assert!(!p(true, true, true).is_logged_in());
    assert!(!p(false, false, false).is_logged_in());
}
