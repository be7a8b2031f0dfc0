//! Decides how a set of locally installed EdgeDB instances is upgraded.
//!
//! The crate holds no I/O. [`run::upgrade`] starts a run; the run says which
//! outside operation it waits for, takes the reply, and moves on until nothing
//! is left to do or an operation has failed.
#![allow(unused_imports)]

mod convert;
pub mod order;
pub mod version;
pub mod location;
pub mod instance;
pub mod options;
pub mod listing;
pub mod selection;
pub mod requests;
pub mod task;
pub mod script;
pub mod run;
pub mod course;
pub mod reach;
pub mod safety;
pub mod progress;
pub mod sequence;
pub mod success;
pub mod permutation;
pub mod decisions;
pub mod particulars;
pub mod steps;
pub mod waits;
pub mod models;
