//! Grocery storefront automation: search-result extraction, shopping-list
//! replay against a cart, and cookie-based session handling, stated as
//! verified pure logic over plain values. The browser and the file system
//! stay with the caller, which performs the actions this library decides on.

pub mod text;
pub mod urlcode;
pub mod models;
pub mod extract;
pub mod scrape;
pub mod cart;
pub mod shopping;
pub mod session;

pub use urlcode::encode;
