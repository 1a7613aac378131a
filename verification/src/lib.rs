//! Business-operations data library: a local-to-remote record reconciler
//! with a link resolver, the record models it works on, and the pure
//! construction logic for the notification messages built around those
//! records.
//!
//! The store of record hands its rows to the plan builders in
//! `reconcile`, which converge the fetched remote records against them;
//! `laws` proves what a whole run guarantees. The surrounding modules
//! hold the record types, the paper codec, the date model, and the text
//! builders for mail and chat notifications.

pub mod applicant;
pub mod codec;
pub mod date;
pub mod journal_clubs;
pub mod laws;
pub mod reconcile;
pub mod records;
pub mod repo;
pub mod rfd;
pub mod sendgrid;
pub mod slack;
pub mod strutil;
pub mod subscriber;
