//! A small event/effect dispatch runtime together with the data types its
//! consumers share: a key/value store interface with an in-memory
//! implementation, and the chat event and effect vocabulary.
//!
//! The heart of the crate is [`free_runner`]: a runner that pulls timestamped
//! event envelopes off a FIFO dispatch queue one at a time, hands each to a
//! handler function, translates a requested side effect through an
//! interpreter function, and feeds any follow-up event back into the same
//! queue, until the handler yields a final result.

pub mod db;
pub mod free_runner;
pub mod hello;
pub mod irc;
