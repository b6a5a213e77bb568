//! A verified core for a small web API that scrapes the PUT "ekursy" Moodle
//! instance: HTML pages are turned into plain trees, and the trees into the
//! JSON-ready records the API answers with.
pub mod accesslogger;
pub mod dom;
pub mod errors;
pub mod parsers;
pub mod sorting;
pub mod text;
pub mod util;
pub mod web;
