//! Who may call, and how often at a time.

use crate::metadata::{
    header_text, metadata_contents, metadata_text, SUBSCRIPTION_HEADER, TOKEN_HEADER,
};
use crate::status::{Code, Status};
use crate::text::{decimal, decimal_text, is_empty, join3, quoted, quoted_text, text_view};
use tonic::metadata::MetadataMap;
use vstd::hash_map::StringHashMap;
use vstd::prelude::*;

verus! {

/// Validates the optional static token used by all Geyser RPC methods.
#[derive(Clone)]
pub struct TokenAuth {
    expected: Option<String>,
}

/// Whether a request with some metadata may be answered.
pub open spec fn is_authorized(
    expected: Option<Seq<char>>,
    contents: Map<Seq<char>, Seq<u8>>,
) -> bool {
    expected is None || header_text(contents, TOKEN_HEADER@) == expected
}

/// The answer to a request that may not be answered.
pub open spec fn is_unauthenticated(status: Status) -> bool {
    &&& status.code == Code::Unauthenticated
    &&& status.message@ == "missing or invalid x-token"@
}

impl TokenAuth {
    /// The token that requests have to carry, if any.
    pub closed spec fn token(self) -> Option<Seq<char>> {
        text_view(self.expected)
    }

    /// Requires a token, or none.
    pub fn new(expected: Option<String>) -> (auth: Self)
        ensures
            auth.token() == text_view(expected),
    {
        TokenAuth { expected }
    }

    /// Checks the token of a request.
    pub fn authorize(&self, metadata: &MetadataMap) -> (result: Result<(), Status>)
        ensures
            match result {
                Ok(_) => is_authorized(self.token(), metadata_contents(*metadata)),
                Err(status) => {
                    &&& !is_authorized(self.token(), metadata_contents(*metadata))
                    &&& is_unauthenticated(status)
                },
            },
    {
        match &self.expected {
            None => Ok(()),
            Some(expected) => {
                let authorized = match metadata_text(metadata, TOKEN_HEADER) {
                    Some(actual) => actual == *expected,
                    None => false,
                };
                if authorized {
                    Ok(())
                } else {
                    Err(
                        Status::new(Code::Unauthenticated, "missing or invalid x-token".to_owned()),
                    )
                }
            },
        }
    }
}

/// The identity under which a subscription is counted: the one it states, or else the address it
/// comes from.
pub open spec fn subscriber_name(
    contents: Map<Seq<char>, Seq<u8>>,
    remote_ip: Option<Seq<char>>,
) -> Seq<char> {
    match header_text(contents, SUBSCRIPTION_HEADER@) {
        Some(name) if name.len() > 0 => name,
        _ => match remote_ip {
            Some(ip) => ip,
            None => "anonymous"@,
        },
    }
}

/// The identity under which a subscription is counted.
pub fn subscriber_id(metadata: &MetadataMap, remote_ip: Option<String>) -> (id: String)
    ensures
        id@ == subscriber_name(metadata_contents(*metadata), text_view(remote_ip)),
{
    match metadata_text(metadata, SUBSCRIPTION_HEADER) {
        Some(name) => {
            if !is_empty(name.as_str()) {
                return name;
            }
        },
        None => {},
    }
    match remote_ip {
        Some(ip) => ip,
        None => "anonymous".to_owned(),
    }
}

/// The number of live streams of a subscriber.
pub open spec fn stream_count(counts: Map<Seq<char>, usize>, subscriber: Seq<char>) -> usize {
    if counts.contains_key(subscriber) {
        counts[subscriber]
    } else {
        0
    }
}

/// The counts after a subscriber opened a stream.
pub open spec fn acquired(counts: Map<Seq<char>, usize>, subscriber: Seq<char>) -> Map<
    Seq<char>,
    usize,
> {
    let count = stream_count(counts, subscriber);
    counts.insert(
        subscriber,
        if count == usize::MAX {
            usize::MAX
        } else {
            (count + 1) as usize
        },
    )
}

/// The counts after a subscriber closed a stream.
pub open spec fn released(counts: Map<Seq<char>, usize>, subscriber: Seq<char>) -> Map<
    Seq<char>,
    usize,
> {
    if !counts.contains_key(subscriber) {
        counts
    } else if counts[subscriber] <= 1 {
        counts.remove(subscriber)
    } else {
        counts.insert(subscriber, (counts[subscriber] - 1) as usize)
    }
}

/// What a subscriber is told who has reached the limit.
pub open spec fn limit_message(subscriber: Seq<char>, limit: usize) -> Seq<char> {
    "subscriber "@ + quoted_text(subscriber) + " reached the concurrent subscription limit ("@
        + decimal(limit as nat) + ")"@
}

/// Enforces a bounded number of live streams for each subscriber identity.
pub struct SubscriptionTracker {
    counts: StringHashMap<usize>,
    limit: usize,
    enforce: bool,
}

/// The right to one live stream, given back through [`SubscriptionTracker::release`].
#[derive(Debug)]
pub struct SubscriptionGuard {
    subscriber_id: String,
    exceeds_limit: bool,
}

impl SubscriptionGuard {
    /// Who holds the stream.
    pub closed spec fn subscriber(self) -> Seq<char> {
        self.subscriber_id@
    }

    /// Whether the subscriber had reached the limit before.
    pub closed spec fn over_limit(self) -> bool {
        self.exceeds_limit
    }

    /// Who holds the stream.
    pub fn subscriber_id(&self) -> (subscriber: &str)
        ensures
            subscriber@ == self.subscriber(),
    {
        self.subscriber_id.as_str()
    }

    /// Whether the subscriber had reached the limit before. Where the limit is not enforced, this
    /// is worth a warning.
    pub fn exceeds_limit(&self) -> (exceeds: bool)
        ensures
            exceeds == self.over_limit(),
    {
        self.exceeds_limit
    }
}

impl View for SubscriptionTracker {
    type V = Map<Seq<char>, usize>;

    closed spec fn view(&self) -> Map<Seq<char>, usize> {
        self.counts@
    }
}

impl SubscriptionTracker {
    /// The number of streams that a subscriber may have.
    pub closed spec fn spec_limit(self) -> usize {
        self.limit
    }

    /// Whether subscribers over the limit are turned away.
    pub closed spec fn spec_enforce(self) -> bool {
        self.enforce
    }

    /// Whether only live streams are counted and, where the limit is enforced, no subscriber is
    /// over it.
    pub open spec fn well_formed(self) -> bool {
        &&& self.spec_limit() > 0
        &&& forall|subscriber: Seq<char>| #[trigger]
            self@.contains_key(subscriber) ==> {
                &&& self@[subscriber] > 0
                &&& self.spec_enforce() ==> self@[subscriber] <= self.spec_limit()
            }
    }

    /// Creates a tracker without streams.
    pub fn new(limit: usize, enforce: bool) -> (tracker: Self)
        requires
            limit > 0,
        ensures
            tracker.well_formed(),
            tracker.spec_limit() == limit,
            tracker.spec_enforce() == enforce,
            tracker@ == Map::<Seq<char>, usize>::empty(),
    {
        SubscriptionTracker { counts: StringHashMap::new(), limit, enforce }
    }

    /// The number of live streams of a subscriber.
    pub fn active(&self, subscriber: &str) -> (count: usize)
        ensures
            count == stream_count(self@, subscriber@),
    {
        match self.counts.get(subscriber) {
            Some(count) => *count,
            None => 0,
        }
    }

    /// Counts one more stream for the subscriber behind a request, unless the limit is enforced
    /// and reached.
    pub fn acquire(&mut self, metadata: &MetadataMap, remote_ip: Option<String>) -> (result: Result<
        SubscriptionGuard,
        Status,
    >)
        requires
            old(self).well_formed(),
        ensures
            final(self).well_formed(),
            final(self).spec_limit() == old(self).spec_limit(),
            final(self).spec_enforce() == old(self).spec_enforce(),
            ({
                let subscriber = subscriber_name(
                    metadata_contents(*metadata),
                    text_view(remote_ip),
                );
                let reached = stream_count(old(self)@, subscriber) >= old(self).spec_limit();
                match result {
                    Ok(guard) => {
                        &&& !(reached && old(self).spec_enforce())
                        &&& guard.subscriber() == subscriber
                        &&& guard.over_limit() == reached
                        &&& final(self)@ == acquired(old(self)@, subscriber)
                    },
                    Err(status) => {
                        &&& reached && old(self).spec_enforce()
                        &&& status.code == Code::ResourceExhausted
                        &&& status.message@ == limit_message(subscriber, old(self).spec_limit())
                        &&& final(self)@ == old(self)@
                    },
                }
            }),
    {
        let subscriber_id = subscriber_id(metadata, remote_ip);
        let count: usize = self.active(subscriber_id.as_str());
        if count >= self.limit && self.enforce {
            let head = join3(
                "subscriber ",
                quoted(subscriber_id.as_str()).as_str(),
                " reached the concurrent subscription limit (",
            );
            let message = join3(head.as_str(), decimal_text(self.limit as u64).as_str(), ")");
            return Err(Status::new(Code::ResourceExhausted, message));
        }
        let next: usize = if count == usize::MAX {
            usize::MAX
        } else {
            count + 1
        };
        self.counts.insert(subscriber_id.clone(), next);
        proof {
            assert forall|subscriber: Seq<char>| #[trigger]
                self@.contains_key(subscriber) implies {
                &&& self@[subscriber] > 0
                &&& self.spec_enforce() ==> self@[subscriber] <= self.spec_limit()
            } by {
                if subscriber != subscriber_id@ {
                    assert(old(self)@.contains_key(subscriber));
                }
            }
        }
        Ok(SubscriptionGuard { subscriber_id, exceeds_limit: count >= self.limit })
    }

    /// Gives a stream back.
    pub fn release(&mut self, guard: SubscriptionGuard)
        requires
            old(self).well_formed(),
        ensures
            final(self).well_formed(),
            final(self).spec_limit() == old(self).spec_limit(),
            final(self).spec_enforce() == old(self).spec_enforce(),
            final(self)@ == released(old(self)@, guard.subscriber()),
    {
        let found = self.counts.contains_key(guard.subscriber_id.as_str());
        let count: usize = self.active(guard.subscriber_id.as_str());
        if found {
            if count <= 1 {
                self.counts.remove(guard.subscriber_id.as_str());
            } else {
                self.counts.insert(guard.subscriber_id.clone(), count - 1);
            }
        }
        proof {
            assert forall|subscriber: Seq<char>| #[trigger]
                self@.contains_key(subscriber) implies {
                &&& self@[subscriber] > 0
                &&& self.spec_enforce() ==> self@[subscriber] <= self.spec_limit()
            } by {
                assert(old(self)@.contains_key(subscriber));
            }
        }
    }
}

impl SubscriptionTracker {
    /// Where the limit is enforced, no subscriber ever has more live streams than it.
    pub proof fn law_limit_is_kept(&self, subscriber: Seq<char>)
        requires
            self.well_formed(),
            self.spec_enforce(),
        ensures
            stream_count(self@, subscriber) <= self.spec_limit(),
    {
    }
}

/// Giving a stream back undoes taking it. (A count that has reached the largest number stays
/// there, so the next release loses one.)
pub proof fn law_release_undoes_acquire(counts: Map<Seq<char>, usize>, subscriber: Seq<char>)
    requires
        counts.contains_key(subscriber) ==> 0 < counts[subscriber] < usize::MAX,
    ensures
        released(acquired(counts, subscriber), subscriber) == counts,
{
    assert(released(acquired(counts, subscriber), subscriber) =~= counts);
}

/// Taking or giving back a stream of one subscriber leaves the others alone.
pub proof fn law_subscribers_are_independent(
    counts: Map<Seq<char>, usize>,
    subscriber: Seq<char>,
    other: Seq<char>,
)
    requires
        subscriber != other,
    ensures
        stream_count(acquired(counts, subscriber), other) == stream_count(counts, other),
        stream_count(released(counts, subscriber), other) == stream_count(counts, other),
{
}

} // verus!
