//! A control centre for Linux: what the screens show and how they change.
use vstd::prelude::*;

pub mod about;
pub mod action;
pub mod app;
pub mod cli;
pub mod event;
pub mod flow_laws;
pub mod key_laws;
pub mod likeness;
pub mod linux;
pub mod number;
pub mod numerals;
pub mod order;
pub mod scheduler;
pub mod shutdown;
pub mod table;
pub mod text;
pub mod text_laws;
pub mod time;

verus! {

} // verus!
