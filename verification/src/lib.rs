//! Core of a bulk-notification publisher.
//!
//! A publish command is deduplicated by a caller-supplied idempotency key:
//! the first submission creates a newsletter issue together with one outbox
//! task per confirmed recipient and a cached response, all in one atomic
//! commit; every retry with the same key replays the cached response
//! verbatim. A delivery worker claims outbox tasks one at a time, hands each
//! to the outbound delivery sink, and retires it, so that one recipient's
//! failure never blocks delivery to the rest.

pub mod configuration;
pub mod domain;
pub mod errors;
pub mod idempotency;
pub mod newsletters;
pub mod publish;
pub mod response;
pub mod store;
pub mod subscriptions;
pub mod worker;
