use shop_automation::models::{option_key_string, ProductOption, ShoppingData};
use shop_automation::scrape::{build_record, plan_scrape, record_key, replace_separators, search_url, ScrapePlan};

fn product(name: &str) -> ProductOption {
    ProductOption {
        name: name.to_string(),
        url: format!("https://shop.supervalu.ie/product/{}", name),
        price: "€1.00".to_string(),
        price_per_unit: "€1.00".to_string(),
        quantity: None,
    }
}

#[test]
fn key_is_lower_case_with_separators_replaced() {
    assert_eq!(record_key("Whole Milk/2L\\Pack"), "whole_milk_2l_pack");
}

#[test]
fn separators_replaced_only() {
    assert_eq!(replace_separators("A b/c\\d"), "A_b_c_d");
}

#[test]
fn search_address_encodes_name() {
    assert_eq!(
        search_url("Brown Bread"),
        "https://shop.supervalu.ie/sm/delivery/rsid/404/results?q=Brown%20Bread"
    );
}

#[test]
fn existing_record_is_skipped() {
    assert!(matches!(plan_scrape("Bananas", true), ScrapePlan::Skip));
}

#[test]
fn missing_record_is_searched() {
    match plan_scrape("Greek Yogurt", false) {
        ScrapePlan::Search { key, url } => {
            assert_eq!(key, "greek_yogurt");
            assert_eq!(url, "https://shop.supervalu.ie/sm/delivery/rsid/404/results?q=Greek%20Yogurt");
        }
        ScrapePlan::Skip => panic!("expected a search"),
    }
}

#[test]
fn nothing_found_stores_nothing() {
    assert!(build_record(Vec::new()).is_none());
}

#[test]
fn found_products_keyed_in_order() {
    let data = build_record(vec![product("a"), product("b"), product("c")]).unwrap();
    assert_eq!(data.supervalu.len(), 3);
    assert_eq!(data.supervalu[0].0, "opt_1");
    assert_eq!(data.supervalu[0].1.name, "a");
    assert_eq!(data.supervalu[2].0, "opt_3");
    assert_eq!(data.supervalu[2].1.name, "c");
}

#[test]
fn option_keys() {
    assert_eq!(option_key_string(1), "opt_1");
    assert_eq!(option_key_string(12), "opt_12");
    assert_eq!(option_key_string(0), "opt_0");
}

#[test]
fn add_option_replaces_same_index() {
    let mut data = ShoppingData::new();
    data.add_option(1, product("a"));
    data.add_option(2, product("b"));
    data.add_option(1, product("z"));
    assert_eq!(data.supervalu.len(), 2);
    assert_eq!(data.supervalu[0].0, "opt_1");
    assert_eq!(data.supervalu[0].1.name, "z");
    assert_eq!(data.supervalu[1].1.name, "b");
}
