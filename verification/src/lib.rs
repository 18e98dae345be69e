//! Subscription lifecycle manager and announcement pipeline for external
//! content feeds delivered over a WebSub-style webhook, together with the
//! small configuration types of the surrounding chat-bot modules.
//!
//! The core lives in [`youtube`]: a ledger of pending and confirmed feed
//! subscriptions, a reconciler that decides on each tick which topic to
//! (re)subscribe to, a bounded deduplication window for announced content
//! ids, a parser for inbound Atom notifications, and the webhook decision
//! logic that turns HTTP requests into events for the reconciler.

pub mod astronauts;
pub mod commands;
pub mod config;
pub mod display;
pub mod filter;
pub mod handler;
pub mod joined;
pub mod link_only;
pub mod role_assign;
pub mod storage;
pub mod text;
pub mod youtube;
