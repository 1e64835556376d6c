//! A double-ended queue backed by a growable ring buffer.
//!
//! The queue supports constant-time insertion and removal at both ends and
//! amortized-constant-time growth. Every operation carries a contract over a
//! mathematical view of the queue as a sequence of its live elements.

pub mod deque;
pub mod laws;
