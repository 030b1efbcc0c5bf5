//! Fan-out of one push message to many Web Push subscriptions.
//!
//! A batch names the subscriptions and one payload. For each subscription the
//! library derives the audience of the VAPID token from the endpoint, has the
//! token signed, has the payload sealed for the recipient's key, and composes
//! the request that a transport sends. What the transport reports for that
//! request is classified into one outcome, and the outcomes are folded into a
//! report keyed by endpoint.
//!
//! The library sends nothing by itself. [`batch::dispatch_batch`] calls a
//! transport that is handed in, once for each request;
//! [`batch::BatchCoordinator`] hands out one request at a time and takes back
//! what became of it, for a transport that has to be waited for.

pub mod batch;
pub mod dispatcher;
pub mod encryptor;
pub mod framing;
pub mod model;
pub mod origin;
pub mod outcome;
pub mod outside;
pub mod report;
pub mod tally;
pub mod text;
pub mod vapid;
