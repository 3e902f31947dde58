//! Reactive block-triggered transfers: the decisions of the pipeline, verified.
//!
//! For every block that the update source reports, one transfer of a fixed
//! amount goes from a fixed sender to a fixed recipient. This library holds
//! what is decided on the way: how the process starts and when it refuses
//! to, what each item of the subscription leads to, and how one submission
//! runs from a fresh anchor to its confirmation. Reading files and talking
//! to the two services is left to the caller, who does what the returned
//! actions say and hands in what came of it.

pub mod address;
pub mod amount;
pub mod bootstrap;
pub mod dispatcher;
pub mod signing;
pub mod submitter;
