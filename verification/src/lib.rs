//! A library of the rules behind a web security scanner driven by Lua
//! scripts: URL query rewriting, response matching, report formatting,
//! request option handling and the scan bookkeeping.

pub mod text;
pub mod regex_ext;
pub mod args;
pub mod url_message;
pub mod matcher;
pub mod report_format;
pub mod reports;
pub mod sitemap;
pub mod http;
pub mod encoding;
pub mod scan;
pub mod headers;
pub mod paths;
