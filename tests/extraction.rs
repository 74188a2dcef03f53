use shop_automation::encode;
use shop_automation::extract::{absolute_link, card_to_record, extract_products, split_quantity, RawCard};

fn card(full_name: &str, href: &str, price: &str, unit_price: &str) -> RawCard {
    RawCard {
        full_name: full_name.to_string(),
        href: href.to_string(),
        price: price.to_string(),
        unit_price: unit_price.to_string(),
    }
}

#[test]
fn quantity_split_from_name() {
    let (name, qty) = split_quantity("Organic Bananas (1 kg)");
    assert_eq!(name, "Organic Bananas");
    assert_eq!(qty.as_deref(), Some("1 kg"));
}

#[test]
fn name_without_group_is_unchanged() {
    let (name, qty) = split_quantity("Whole Milk");
    assert_eq!(name, "Whole Milk");
    assert_eq!(qty, None);
}

#[test]
fn group_not_at_end_is_kept() {
    let (name, qty) = split_quantity("Eggs (6 Piece) Large");
    assert_eq!(name, "Eggs (6 Piece) Large");
    assert_eq!(qty, None);
}

#[test]
fn empty_group_is_not_a_quantity() {
    let (name, qty) = split_quantity("Odd Item ()");
    assert_eq!(name, "Odd Item ()");
    assert_eq!(qty, None);
}

#[test]
fn leftmost_open_after_last_close_starts_group() {
    let (name, qty) = split_quantity("Mix (a (b)");
    assert_eq!(name, "Mix");
    assert_eq!(qty.as_deref(), Some("a (b"));
}

#[test]
fn nested_close_is_not_a_quantity() {
    let (name, qty) = split_quantity("Mix (a (b))");
    assert_eq!(name, "Mix (a (b))");
    assert_eq!(qty, None);
}

#[test]
fn relative_link_gets_origin() {
    assert_eq!(absolute_link("/product/x-123"), "https://shop.supervalu.ie/product/x-123");
    assert_eq!(absolute_link("https://other.example/p"), "https://other.example/p");
    assert_eq!(absolute_link(""), "");
}

#[test]
fn unit_price_falls_back_to_price() {
    let r = card_to_record(&card("Butter (454 g)", "/product/butter", "€3.99", ""));
    assert_eq!(r.name, "Butter");
    assert_eq!(r.quantity.as_deref(), Some("454 g"));
    assert_eq!(r.url, "https://shop.supervalu.ie/product/butter");
    assert_eq!(r.price, "€3.99");
    assert_eq!(r.price_per_unit, "€3.99");
}

#[test]
fn extraction_takes_first_three_in_order() {
    let cards = vec![
        card("A (1 kg)", "/product/a", "€1.00", "€1.00/kg"),
        card("B", "/product/b", "€2.00", ""),
        card("C (6 Piece)", "", "€3.00", ""),
        card("D", "/product/d", "€4.00", ""),
    ];
    let r = extract_products(&cards);
    assert_eq!(r.len(), 3);
    assert_eq!(r[0].name, "A");
    assert_eq!(r[0].price_per_unit, "€1.00/kg");
    assert_eq!(r[1].name, "B");
    assert_eq!(r[2].name, "C");
    assert_eq!(r[2].quantity.as_deref(), Some("6 Piece"));
}

#[test]
fn incomplete_cards_are_dropped() {
    let cards = vec![
        card("", "/product/a", "€1.00", ""),
        card("B", "", "", ""),
        card("C", "/product/c", "", ""),
        card("D", "/product/d", "€4.00", ""),
    ];
    let r = extract_products(&cards);
    assert_eq!(r.len(), 1);
    assert_eq!(r[0].name, "C");
    assert_eq!(r[0].price, "");
}

#[test]
fn no_cards_no_records() {
    assert!(extract_products(&Vec::new()).is_empty());
}

#[test]
fn encode_reserved_and_plain() {
    assert_eq!(encode("milk & eggs"), "milk%20%26%20eggs");
    assert_eq!(encode("a-b_c.d~"), "a-b_c.d%7E");
    assert_eq!(encode("50%/x"), "50%25%2Fx");
    assert_eq!(encode(""), "");
}

#[test]
fn encode_non_ascii_uses_low_byte() {
    assert_eq!(encode("café"), "caf%E9");
}

#[test]
fn wide_space_before_group_is_trimmed() {
    let (name, qty) = split_quantity("Foo\u{3000}(1 kg)");
    assert_eq!(name, "Foo");
    assert_eq!(qty.as_deref(), Some("1 kg"));
    let (name, _) = split_quantity("Bar \u{00A0}\u{2009}(2 Piece)");
    assert_eq!(name, "Bar");
}
