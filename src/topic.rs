use vstd::prelude::*;

verus! {

/// The dispatch key of a message class.
#[derive(Clone, Copy, Debug, PartialEq, Eq, Structural)]
pub enum Topic {
    /// A concrete message type, named by its type tag.
    Message(u64),
    /// Fired when an activity turns from inactive to active.
    Enter,
    /// Fired when an activity turns from active to inactive.
    Leave,
}

impl Topic {
    /// The topic of the message type with tag `tag`.
    pub fn message(tag: u64) -> (r: Topic)
        ensures
            r == Topic::Message(tag),
    {
        Topic::Message(tag)
    }

    pub fn enter() -> (r: Topic)
        ensures
            r == Topic::Enter,
    {
        Topic::Enter
    }

    pub fn leave() -> (r: Topic)
        ensures
            r == Topic::Leave,
    {
        Topic::Leave
    }
}

/// The delivery policy checked against an activity's active flag before one
/// of its handlers runs.
#[derive(Clone, Copy, Debug, PartialEq, Eq, Structural)]
pub enum SubscriptionFilter {
    /// Deliver only while the activity is active (the default).
    ActiveOnly,
    /// Deliver whatever the activity's status.
    NoFilter,
    /// Deliver only while the activity is inactive.
    InactiveOnly,
}

/// Whether a handler with filter `f` runs for an activity whose flag is `active`.
pub open spec fn filter_passes(f: SubscriptionFilter, active: bool) -> bool {
    match f {
        SubscriptionFilter::ActiveOnly => active,
        SubscriptionFilter::NoFilter => true,
        SubscriptionFilter::InactiveOnly => !active,
    }
}

impl SubscriptionFilter {
    pub fn no_filter() -> (r: SubscriptionFilter)
        ensures
            r == SubscriptionFilter::NoFilter,
    {
        SubscriptionFilter::NoFilter
    }

    pub fn inactive_only() -> (r: SubscriptionFilter)
        ensures
            r == SubscriptionFilter::InactiveOnly,
    {
        SubscriptionFilter::InactiveOnly
    }

    /// Evaluates the policy against an active flag.
    pub fn passes(&self, active: bool) -> (r: bool)
        ensures
            r == filter_passes(*self, active),
    {
        match self {
            SubscriptionFilter::ActiveOnly => active,
            SubscriptionFilter::NoFilter => true,
            SubscriptionFilter::InactiveOnly => !active,
        }
    }
}

impl Default for SubscriptionFilter {
    fn default() -> (r: SubscriptionFilter)
        ensures
            r == SubscriptionFilter::ActiveOnly,
    {
        SubscriptionFilter::ActiveOnly
    }
}

} // verus!
