//! Core of an attachment optimizer for a tabular-document service.
//!
//! The service keeps documents with tables; records refer to attachments in
//! cells. This crate decides which image attachments are worth converting
//! to a smaller encoding, drives the conversion of each of them, builds the
//! map from old attachment ids to new ones, and rewrites the references of
//! the records, a cell as a whole or not at all.
//!
//! The crate does no I/O. Its three state machines, [`document::DocumentRun`],
//! [`worker::ConversionWorker`] and [`scan::TableScan`], say what is to be
//! done next; the caller fetches, encodes, uploads and reports back.

pub mod args;
pub mod attachment;
pub mod cell;
pub mod classifier;
pub mod column;
pub mod document;
pub mod encoder;
pub mod id_map;
pub mod method;
pub mod names;
pub mod record;
pub mod remap;
pub mod scan;
pub mod worker;
