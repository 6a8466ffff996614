//! The feed of locations that can be reached right now: whoever attaches
//! gets the current set first, then every change for as long as the channel
//! delivers.

use vstd::prelude::*;

verus! {

/// Where a subscriber of the feed stands.
#[derive(Debug, Clone, Copy, PartialEq, Eq, Structural)]
pub enum OnlineSubscription {
    /// Just attached: the current set is still to be sent.
    Attached,
    /// The current set was sent; changes are passed on as they come.
    Live,
    /// The channel gave out; nothing more is sent.
    Closed,
}

/// What happened on the side of the feed.
#[derive(Debug)]
pub enum OnlineEvent {
    /// The current set, read when the subscriber attached.
    Snapshot(Vec<Vec<u8>>),
    /// A change that the channel delivered.
    Update(Vec<Vec<u8>>),
    /// The channel could not deliver: it was closed, or the subscriber fell
    /// too far behind.
    Lost,
}

/// What a subscriber does on an event: where it stands afterwards and what
/// it sends on, if anything. The snapshot is sent once, on attaching; after
/// it every update is sent as it is; a loss ends the subscription, and so
/// does anything that comes out of turn.
pub open spec fn online_step(
    before: OnlineSubscription,
    event: OnlineEvent,
    after: OnlineSubscription,
    sent: Option<Vec<Vec<u8>>>,
) -> bool {
    match (before, event) {
        (OnlineSubscription::Attached, OnlineEvent::Snapshot(locations)) => after
            == OnlineSubscription::Live && sent == Some(locations),
        (OnlineSubscription::Live, OnlineEvent::Update(locations)) => after
            == OnlineSubscription::Live && sent == Some(locations),
        _ => after == OnlineSubscription::Closed && sent is None,
    }
}

impl OnlineSubscription {
    /// A subscriber that has just attached.
    pub fn attach() -> (r: OnlineSubscription)
        ensures
            r == OnlineSubscription::Attached,
    {
        OnlineSubscription::Attached
    }

    /// Takes an event and says what is sent on to the subscriber.
    pub fn step(self, event: OnlineEvent) -> (r: (OnlineSubscription, Option<Vec<Vec<u8>>>))
        ensures
            online_step(self, event, r.0, r.1),
    {
        match (self, event) {
            (OnlineSubscription::Attached, OnlineEvent::Snapshot(locations)) => (
                OnlineSubscription::Live,
                Some(locations),
            ),
            (OnlineSubscription::Live, OnlineEvent::Update(locations)) => (
                OnlineSubscription::Live,
                Some(locations),
            ),
            _ => (OnlineSubscription::Closed, None),
        }
    }
}

} // verus!
