//! Push-notification subscriptions for external video feeds.
//!
//! A hub delivers new-content notifications for subscribed topics to a
//! webhook. This module tracks which topics are desired, pending and
//! confirmed, decides which topic to (re)subscribe to on each reconciliation
//! tick, deduplicates delivered notifications, and renders the announcement
//! text for each fresh publication.

pub mod announcer;
pub mod buffer;
pub mod feed;
pub mod ids;
pub mod ledger;
pub mod webhook;
