//! A concurrent task engine for a vim package manager: it plans a batch of
//! package tasks into terminal-height-bounded chunks, drives each task
//! through a rendered lifecycle on its own terminal row, collects failures
//! without aborting the batch, and names what a cancelled install batch must
//! roll back.

pub mod batch;
pub mod echo;
pub mod error;
pub mod git;
pub mod ops;
pub mod task;
pub mod utils;
