//! A personal calendar engine: time spans and recurrence, the event record
//! parser, the per-calendar occurrence index and the cross-calendar agenda
//! with its date-keyed occurrence cache.

pub mod agenda;
pub mod alarm;
pub mod calendar;
pub mod datetime;
pub mod duration;
pub mod error;
pub mod event;
pub mod icaldatetime;
pub mod newevent;
pub mod notification;
pub mod occurrence;
pub mod property;
pub mod provider;
pub mod recurrence;
pub mod seqs;
pub mod text;
pub mod watch;
pub mod timespan;
pub mod zone;
