//! Session bookkeeping, command-line argument grammar, key-combo decoding,
//! page-reply interpretation and report rendering for a Chrome DevTools
//! Protocol QA driver.
pub mod text;
pub mod error;
pub mod keys;
pub mod args;
pub mod session;
pub mod element;
pub mod output;
pub mod json;
pub mod page;
pub mod chrome;
pub mod report;
pub mod process;
