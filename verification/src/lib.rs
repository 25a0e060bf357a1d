//! Pages described by annotated structures, and their dispatch.
//!
//! A page is declared as a structure whose metadata names the route it is
//! served at and says how each field is shown. `page::generate` reads such a
//! declaration, refuses what is malformed, and emits the binding template of
//! the page; `dispatch` says, for each request, which page is asked for and
//! what the response is once its instance has been constructed.
//!
//! Every function is verified against a contract over sequences of
//! characters. The few calls that leave verified code are gathered in
//! `outside`.

pub mod dispatch;
pub mod error;
pub mod json;
pub mod meta;
pub mod outside;
pub mod page;
pub mod seqs;
pub mod text;
pub mod uptime;
pub mod vms;
