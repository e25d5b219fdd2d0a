//! Idempotent, crash-safe delivery of newsletter issues.
//!
//! A publish request files one delivery task per confirmed subscriber in the
//! same transaction that records the request's idempotency key, and a worker
//! retires the tasks one by one. The three tables that hold this state are
//! modelled by [`store::Store`]; every operation on them is verified against
//! the mathematical model in [`model`], and [`laws`] proves what the model
//! guarantees across several operations. [`journal`] turns the operations
//! into values, so that a caller can write them down before it applies them
//! and rebuild the store after a restart.

pub mod domain;
pub mod error;
pub mod ids;
pub mod issue;
pub mod journal;
pub mod keyed;
pub mod laws;
pub mod ledger;
pub mod model;
pub mod pages;
pub mod publish;
pub mod response;
pub mod store;

pub use domain::{
    get_confirmed_subscribers, subscribe, ConfirmedSubscriber, DataIntegrityError, FormData,
    NewsletterFormData, SubscriberName, SubscriberRow,
};
pub use error::PublishError;
pub use ids::{fresh_idempotency_key, IssueId, UserId};
pub use journal::{Command, Reply};
pub use issue::{send_outcome, DeliveryTask, ExecutionOutcome, NewsletterIssue, SendOutcome};
pub use ledger::{IdempotencyLedger, IdempotencyRecord, LedgerEntry};
pub use pages::{greeting, login_form, publish_newsletter_form, render_publish_form};
pub use publish::{publish_newsletter, FlashLevel, FlashNotice};
pub use response::{e400, e500, see_other, Header, HttpResponseSnapshot};
pub use store::{
    check_request, plan_deliveries, Delivery, DeliveryPlan, Iteration, PublishOutcome,
    PublishReceipt, PublishStart, Store,
};
