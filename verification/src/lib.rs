//! Reconstruction of typed events from the execution logs of one program.
//!
//! A transaction's log is a flat list of text lines in which the output of
//! several programs is interleaved. [`line`] reads one line and [`frame`]
//! keeps the stack of running invocations. [`encoding`], [`schema`],
//! [`record`] and [`event`] turn the payload of a data line into events, and
//! [`decoder`] puts the pieces together for a whole batch. [`listener`] is
//! the course of a subscription; [`config`] and [`error`] serve the program
//! around it. [`flaw`] names what is passed over on the way.

pub mod config;
pub mod decoder;
pub mod encoding;
pub mod error;
pub mod event;
pub mod flaw;
pub mod frame;
pub mod line;
pub mod listener;
pub mod record;
pub mod schema;
