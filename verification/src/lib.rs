//! A declarative HTTP edge router: an ordered list of rules is compiled into
//! a router which, for each request, picks the first rule whose method, path
//! pattern and header conditions all match, and answers it with either a
//! redirect (with path-parameter substitution) or an instruction to forward
//! the request verbatim to a fixed upstream.

pub mod action;
pub mod catchers;
pub mod condition;
pub mod config;
pub mod errors;
pub mod message;
pub mod pattern;
pub mod proxy;
pub mod routers;
pub mod strutil;
