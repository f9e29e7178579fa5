//! The rules of a toolkit for the store files of the cannyls storage engine.
//!
//! The library says how a store is sized for a workload, what each benchmark
//! asks of the engine and in which order, where the versions stand in a store
//! file, what a key says of the record it stands for, and how arguments and
//! the lines of a prompt are read. It opens no file, keeps no clock and never
//! touches a store: a caller performs those effects and hands plain values
//! in and out.

pub mod access;
pub mod args;
pub mod bench;
pub mod codec;
pub mod command;
pub mod header;
pub mod schedule;
pub mod sizing;
pub mod timer;
