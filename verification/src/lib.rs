pub mod cards;
pub mod chars;
pub mod diagnostics;
pub mod environment;
pub mod formatting;
pub mod http;
pub mod urls;
pub mod endpoints;
pub mod latest;
pub mod resources;
pub mod report;
