//! Logic of a sensor node that serves a small attribute table to one radio
//! peer and republishes the time reported by a serial navigation receiver.
//!
//! Every module holds plain data and pure decisions; the firmware around it
//! performs the reads, the sends and the waiting.

pub mod adapter;
pub mod advert;
pub mod attributes;
pub mod decoder;
pub mod dispatcher;
pub mod framer;
pub mod pipeline;
pub mod supervisor;
