//! An interactive command supervisor: a line-oriented command grammar, a
//! path scope guard, decision logic for independently scheduled work units,
//! a status reporter, and the dispatch-and-drain supervisor state machine.
//!
//! Everything here is pure logic over plain values. The surrounding program
//! (reading lines, sleeping, touching the filesystem, scheduling tasks)
//! drives these functions and performs the effects they request.

pub mod fsmodel;
pub mod grammar;
pub mod report;
pub mod scope;
pub mod supervisor;
pub mod units;
mod strutil;
