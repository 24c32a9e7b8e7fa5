//! The core of a crawler for a catalog of web pages laid out by date:
//! year, month, day, and under each day a listing of products over one or
//! more pages.
//!
//! * [`identifier`] reads node keys out of URLs by position;
//! * [`catalog`] holds months and their days, and merges days without
//!   duplicating them;
//! * [`extract`] reads records out of link elements, and [`html`] finds the
//!   link elements in a parsed document;
//! * [`scrape`] puts the two together for each sort of page;
//! * [`pages`] orders the extra pages of a listing;
//! * [`crawl`] is the crawl itself, as a state machine, and [`crawl_laws`]
//!   states what holds of every run of it.
//!
//! Every function carries a contract. The contracts are proved, all but
//! those of the six functions in [`html`] that call the HTML parser: what
//! these say of the parser's results is believed.

pub mod catalog;
pub mod crawl;
pub mod crawl_laws;
pub mod decimal;
pub mod error;
pub mod extract;
pub mod html;
pub mod identifier;
pub mod pages;
pub mod records;
pub mod scrape;
pub mod text;
