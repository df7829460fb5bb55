//! Cost model, derived cache metrics, run-to-run comparison and regression
//! decisions for callgrind measurements.
//!
//! The library takes counters that were already read from the profiler's
//! output and answers three questions: what did the caches do
//! ([`cache`]), how does a run compare with its baseline ([`summary`],
//! [`segments`]), and is the change a regression ([`regression`]). It reads
//! no file and runs no program.
//!
//! Every function is verified against its contract. What is assumed
//! without proof is the behaviour of the ordered map ([`ordered_map`]), of
//! the pairing of two iterators ([`segments`]), and of two functions of the
//! standard library ([`text`], [`api`]).

pub mod api;
pub mod cache;
pub mod costs;
pub mod error;
pub mod event_kind;
pub mod format;
pub mod keyed;
pub mod ordered_map;
pub mod parse;
pub mod positions;
pub mod ratio;
pub mod regression;
pub mod segments;
pub mod summary;
pub mod text;
