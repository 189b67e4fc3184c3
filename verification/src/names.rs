//! The names that the coordinator uses in etcd.
//!
//! Everything lies under the configured prefix, in one keyspace per purpose.
use vstd::prelude::*;

use crate::config::{EtcdConfig, Settings};
use crate::text::{concat2, concat3, concat4, decimal, digit, to_decimal};

verus! {

/// The parts of the namespace.
pub enum Keyspace {
    /// The key-value store.
    Kv,
    /// Leadership leases, by role.
    Leadership,
    /// Lock leases, by name.
    Locks,
    /// Published events, by topic.
    Events,
    /// Registered peers, by node.
    Peers,
}

/// The segment that names a keyspace.
pub open spec fn segment(space: Keyspace) -> Seq<char> {
    match space {
        Keyspace::Kv => "kv/"@,
        Keyspace::Leadership => "leadership/"@,
        Keyspace::Locks => "locks/"@,
        Keyspace::Events => "events/"@,
        Keyspace::Peers => "peers/"@,
    }
}

/// The name `rest` in a keyspace of the namespace `prefix`.
pub open spec fn name_in(prefix: Seq<char>, space: Keyspace, rest: Seq<char>) -> Seq<char> {
    prefix + segment(space) + rest
}

/// What the names of a topic's events begin with.
pub open spec fn topic_prefix(prefix: Seq<char>, topic: Seq<char>) -> Seq<char> {
    name_in(prefix, Keyspace::Events, topic + "/"@)
}

/// The name of one event: its time in nanoseconds and a random number, which
/// keeps apart the events of one instant.
pub open spec fn event_name(
    prefix: Seq<char>,
    topic: Seq<char>,
    nanos: nat,
    random: nat,
) -> Seq<char> {
    topic_prefix(prefix, topic) + decimal(nanos) + "-"@ + decimal(random)
}

/// The identity of a node: the configured one, or one made of the namespace
/// and the host name.
pub open spec fn identity(c: Settings, hostname: Option<Seq<char>>) -> Seq<char> {
    match c.node_id {
        Some(id) => id,
        None => c.key_prefix + "node-"@ + match hostname {
            Some(host) => host,
            None => "unknown"@,
        },
    }
}

impl EtcdConfig {
    /// This node's identity on the host `hostname`; `None` where the host has
    /// no name.
    pub fn resolved_node_id(&self, hostname: Option<&str>) -> (r: String)
        ensures
            r@ == identity(
                self@,
                match hostname {
                    Some(host) => Some(host@),
                    None => None,
                },
            ),
    {
        match &self.node_id {
            Some(id) => id.clone(),
            None => {
                let host: &str = match hostname {
                    Some(host) => host,
                    None => "unknown",
                };
                concat3(self.key_prefix.as_str(), "node-", host)
            },
        }
    }

    /// The key under which the peer `node_id` is registered.
    pub fn peer_key(&self, node_id: &str) -> (r: String)
        ensures
            r@ == name_in(self@.key_prefix, Keyspace::Peers, node_id@),
    {
        concat3(self.key_prefix.as_str(), "peers/", node_id)
    }

    /// What the keys of all peers begin with.
    pub fn peers_prefix(&self) -> (r: String)
        ensures
            r@ == name_in(self@.key_prefix, Keyspace::Peers, Seq::empty()),
    {
        let r: String = concat2(self.key_prefix.as_str(), "peers/");
        assert(r@ =~= name_in(self@.key_prefix, Keyspace::Peers, Seq::empty()));
        r
    }

    /// What the keys of all events of `topic` begin with.
    pub fn topic_key_prefix(&self, topic: &str) -> (r: String)
        ensures
            r@ == topic_prefix(self@.key_prefix, topic@),
    {
        let r: String = concat4(self.key_prefix.as_str(), "events/", topic, "/");
        assert(r@ =~= topic_prefix(self@.key_prefix, topic@));
        r
    }

    /// The key of one event of `topic`.
    pub fn event_key(&self, topic: &str, nanos: u128, random: u64) -> (r: String)
        ensures
            r@ == event_name(self@.key_prefix, topic@, nanos as nat, random as nat),
    {
        concat4(
            self.topic_key_prefix(topic).as_str(),
            to_decimal(nanos).as_str(),
            "-",
            to_decimal(random as u128).as_str(),
        )
    }

    /// What the keys of the key-value store begin with.
    pub fn kv_prefix(&self) -> (r: String)
        ensures
            r@ == name_in(self@.key_prefix, Keyspace::Kv, Seq::empty()),
    {
        let r: String = concat2(self.key_prefix.as_str(), "kv/");
        assert(r@ =~= name_in(self@.key_prefix, Keyspace::Kv, Seq::empty()));
        r
    }

    /// The name of the lease that the leader of `role` holds.
    pub fn leadership_name(&self, role: &str) -> (r: String)
        ensures
            r@ == name_in(self@.key_prefix, Keyspace::Leadership, role@),
    {
        concat3(self.key_prefix.as_str(), "leadership/", role)
    }

    /// The name of the lease that the holder of the lock `key` holds.
    pub fn lock_name(&self, key: &str) -> (r: String)
        ensures
            r@ == name_in(self@.key_prefix, Keyspace::Locks, key@),
    {
        concat3(self.key_prefix.as_str(), "locks/", key)
    }
}

/// Two names of one namespace that lie in different keyspaces differ.
pub proof fn keyspaces_are_disjoint(
    prefix: Seq<char>,
    a: Keyspace,
    b: Keyspace,
    x: Seq<char>,
    y: Seq<char>,
)
    requires
        a != b,
    ensures
        name_in(prefix, a, x) != name_in(prefix, b, y),
{
    reveal_strlit("kv/");
    reveal_strlit("leadership/");
    reveal_strlit("locks/");
    reveal_strlit("events/");
    reveal_strlit("peers/");
    let p = prefix.len() as int;
    let left = name_in(prefix, a, x);
    let right = name_in(prefix, b, y);
    assert(left[p] == segment(a)[0] && left[p + 1] == segment(a)[1]);
    assert(right[p] == segment(b)[0] && right[p + 1] == segment(b)[1]);
}

/// Deployments whose prefixes differ use different names for the same thing.
pub proof fn prefixes_tell_deployments_apart(
    one: Seq<char>,
    other: Seq<char>,
    space: Keyspace,
    rest: Seq<char>,
)
    requires
        one != other,
    ensures
        name_in(one, space, rest) != name_in(other, space, rest),
{
    let left = name_in(one, space, rest);
    let right = name_in(other, space, rest);
    assert(left.len() == one.len() + segment(space).len() + rest.len());
    assert(right.len() == other.len() + segment(space).len() + rest.len());
    if left == right {
        assert forall|i: int| 0 <= i < one.len() implies one[i] == other[i] by {
            assert(one[i] == left[i] && other[i] == right[i]);
        }
        assert(one =~= other);
    }
}

/// Whether the namespace `inner` lies in a keyspace of the namespace `outer`.
pub open spec fn lies_in_a_keyspace_of(inner: Seq<char>, outer: Seq<char>) -> bool {
    exists|space: Keyspace| (outer + #[trigger] segment(space)).is_prefix_of(inner)
}

/// A namespace that begins with a longer one's name shares names with it only
/// through a keyspace.
proof fn longer_namespaces_are_reached_through_keyspaces(
    one: Seq<char>,
    other: Seq<char>,
    a: Keyspace,
    b: Keyspace,
    x: Seq<char>,
    y: Seq<char>,
)
    requires
        one.len() < other.len(),
        other.last() == '/',
        name_in(one, a, x) == name_in(other, b, y),
    ensures
        lies_in_a_keyspace_of(other, one),
{
    reveal_strlit("kv/");
    reveal_strlit("leadership/");
    reveal_strlit("locks/");
    reveal_strlit("events/");
    reveal_strlit("peers/");
    let left = name_in(one, a, x);
    let right = name_in(other, b, y);
    let space = one + segment(a);
    let last = other.len() - 1;
    assert(right[last] == '/');
    if last < space.len() - 1 {
        assert(left[last] == segment(a)[last - one.len()]);
        assert(segment(a)[last - one.len()] != '/');
    }
    assert(other.take(space.len() as int) =~= space) by {
        assert forall|i: int| 0 <= i < space.len() implies other[i] == space[i] by {
            assert(left[i] == space[i] && right[i] == other[i]);
        }
    }
}

/// Deployments with distinct prefixes, each of which ends in `/`, share no
/// name, unless one prefix lies in a keyspace of the other.
pub proof fn deployments_are_isolated(
    one: Seq<char>,
    other: Seq<char>,
    a: Keyspace,
    b: Keyspace,
    x: Seq<char>,
    y: Seq<char>,
)
    requires
        one != other,
        one.len() > 0 && one.last() == '/',
        other.len() > 0 && other.last() == '/',
        !lies_in_a_keyspace_of(one, other),
        !lies_in_a_keyspace_of(other, one),
    ensures
        name_in(one, a, x) != name_in(other, b, y),
{
    let left = name_in(one, a, x);
    let right = name_in(other, b, y);
    if left == right {
        if one.len() < other.len() {
            longer_namespaces_are_reached_through_keyspaces(one, other, a, b, x, y);
        } else if other.len() < one.len() {
            longer_namespaces_are_reached_through_keyspaces(other, one, b, a, y, x);
        } else {
            assert forall|i: int| 0 <= i < one.len() implies one[i] == other[i] by {
                assert(one[i] == left[i] && other[i] == right[i]);
            }
            assert(one =~= other);
        }
    }
}

/// Every event of a topic lies under the prefix that its subscribers watch.
pub proof fn events_lie_under_their_topic(
    prefix: Seq<char>,
    topic: Seq<char>,
    nanos: nat,
    random: nat,
)
    ensures
        topic_prefix(prefix, topic).is_prefix_of(event_name(prefix, topic, nanos, random)),
{
    let watched = topic_prefix(prefix, topic);
    let event = event_name(prefix, topic, nanos, random);
    assert(event.take(watched.len() as int) =~= watched);
}

/// Every registered peer lies under the prefix that is scanned for peers.
pub proof fn peers_lie_under_their_prefix(prefix: Seq<char>, node_id: Seq<char>)
    ensures
        name_in(prefix, Keyspace::Peers, Seq::empty()).is_prefix_of(
            name_in(prefix, Keyspace::Peers, node_id),
        ),
{
    let scanned = name_in(prefix, Keyspace::Peers, Seq::empty());
    assert(scanned =~= prefix + segment(Keyspace::Peers));
    assert(name_in(prefix, Keyspace::Peers, node_id).take(scanned.len() as int) =~= scanned);
}

/// A decimal number is made of digits: it holds neither `/` nor `-`.
proof fn decimals_hold_digits(n: nat)
    ensures
        decimal(n).len() > 0,
        forall|i: int|
            0 <= i < decimal(n).len() ==> #[trigger] decimal(n)[i] != '/' && decimal(n)[i] != '-',
    decreases n,
{
    if n >= 10 {
        decimals_hold_digits(n / 10);
        let most = decimal(n / 10);
        assert(digit(n % 10) != '/' && digit(n % 10) != '-');
        assert forall|i: int| 0 <= i < decimal(n).len() implies #[trigger] decimal(n)[i] != '/'
            && decimal(n)[i] != '-' by {
            if i < most.len() {
                assert(decimal(n)[i] == most[i]);
            }
        }
    } else {
        assert(digit(n) != '/' && digit(n) != '-');
    }
}

/// Different numbers are written differently.
proof fn decimals_tell_numbers_apart(m: nat, n: nat)
    requires
        decimal(m) == decimal(n),
    ensures
        m == n,
    decreases m,
{
    let (a, b) = (decimal(m), decimal(n));
    assert(a.last() == digit(m % 10));
    assert(b.last() == digit(n % 10));
    assert(m % 10 == n % 10);
    if m >= 10 {
        decimals_hold_digits(m / 10);
        assert(a.drop_last() =~= decimal(m / 10));
    }
    if n >= 10 {
        decimals_hold_digits(n / 10);
        assert(b.drop_last() =~= decimal(n / 10));
    }
    if m >= 10 && n >= 10 {
        decimals_tell_numbers_apart(m / 10, n / 10);
    } else {
        assert(a.drop_last().len() == b.drop_last().len());
        assert(m < 10 && n < 10);
    }
}

/// Each event has a key of its own: events of a topic that differ in time or
/// in their random number have different keys.
pub proof fn events_have_keys_of_their_own(
    prefix: Seq<char>,
    topic: Seq<char>,
    nanos: nat,
    random: nat,
    other_nanos: nat,
    other_random: nat,
)
    requires
        event_name(prefix, topic, nanos, random) == event_name(
            prefix,
            topic,
            other_nanos,
            other_random,
        ),
    ensures
        nanos == other_nanos,
        random == other_random,
{
    reveal_strlit("-");
    let start = topic_prefix(prefix, topic).len() as int;
    let one = decimal(nanos);
    let other = decimal(other_nanos);
    let left = event_name(prefix, topic, nanos, random);
    let right = event_name(prefix, topic, other_nanos, other_random);
    decimals_hold_digits(nanos);
    decimals_hold_digits(other_nanos);
    assert(left[start + one.len()] == '-');
    assert(right[start + other.len()] == '-');
    if one.len() < other.len() {
        assert(right[start + one.len()] == other[one.len() as int]);
    } else if other.len() < one.len() {
        assert(left[start + other.len()] == one[other.len() as int]);
    }
    let end = start + one.len();
    assert(left.subrange(start, end) =~= one);
    assert(right.subrange(start, end) =~= other);
    assert(left.skip(end + 1) =~= decimal(random));
    assert(right.skip(end + 1) =~= decimal(other_random));
    decimals_tell_numbers_apart(nanos, other_nanos);
    decimals_tell_numbers_apart(random, other_random);
}

/// A subscriber of `topic` watches the events of `published` if and only if
/// `published` is `topic` or a topic below it.
pub proof fn topics_are_watched_with_what_lies_below(
    prefix: Seq<char>,
    topic: Seq<char>,
    published: Seq<char>,
    nanos: nat,
    random: nat,
)
    ensures
        topic_prefix(prefix, topic).is_prefix_of(event_name(prefix, published, nanos, random))
            <==> (topic + "/"@).is_prefix_of(published + "/"@),
{
    reveal_strlit("/");
    reveal_strlit("-");
    let base = prefix + segment(Keyspace::Events);
    let short = topic + "/"@;
    let long = published + "/"@;
    let tail = decimal(nanos) + "-"@ + decimal(random);
    let watched = topic_prefix(prefix, topic);
    let event = event_name(prefix, published, nanos, random);
    assert(watched =~= base + short);
    assert(event =~= base + long + tail);
    decimals_hold_digits(nanos);
    decimals_hold_digits(random);
    assert forall|i: int| 0 <= i < tail.len() implies tail[i] != '/' by {
        let d = decimal(nanos);
        if i < d.len() {
            assert(tail[i] == d[i]);
        } else if i == d.len() {
            assert(tail[i] == '-');
        } else {
            assert(tail[i] == decimal(random)[i - d.len() - 1]);
        }
    }
    if short.is_prefix_of(long) {
        assert(event.take(watched.len() as int) =~= watched) by {
            assert(long.take(short.len() as int) =~= short);
            assert forall|i: int| 0 <= i < watched.len() implies event[i] == watched[i] by {
                if i >= base.len() {
                    assert(long[i - base.len()] == short[i - base.len()]);
                }
            }
        }
    }
    if watched.is_prefix_of(event) {
        assert(event.take(watched.len() as int) == watched);
        let last = watched.len() - 1;
        assert(event.take(watched.len() as int)[last] == event[last]);
        assert(watched[last] == '/');
        if short.len() > long.len() {
            assert(event[last] == tail[last - base.len() - long.len()]);
        }
        assert(long.take(short.len() as int) =~= short) by {
            assert forall|i: int| 0 <= i < short.len() implies long[i] == short[i] by {
                assert(event.take(watched.len() as int)[base.len() + i] == event[base.len() + i]);
                assert(event[base.len() + i] == long[i]);
                assert(watched[base.len() + i] == short[i]);
            }
        }
    }
}

} // verus!
