//! Outbound notification dispatch: each notifier renders an accepted message
//! into the notification to send. Executing the send as a deferred,
//! best-effort action — and swallowing its failures — is the runner's
//! business, outside the write path.

pub mod telegram;

use vstd::prelude::*;
use crate::database::ReceiveMsg;

verus! {

/// What a notifier wants sent: a target URL and the payload fields.
pub struct Notification {
    pub url: String,
    pub chat_id: String,
    pub text: String,
}

/// A notifier. Escaping the message for the notifier's medium is each
/// notifier's own duty, not the store's.
pub trait Integration {
    /// Renders an accepted message into the notification to send.
    fn integrate(&self, msg: &ReceiveMsg) -> Notification;
}

} // verus!
