//! A parameterized HTTP request brute-forcer: wordlists of candidate values
//! are combined into every possible parameter assignment, one request is
//! described per combination, and the outcomes are collected in combination
//! order.

pub mod args;
pub mod dispatch;
pub mod generator;
pub mod request;
pub mod wordlist;
