//! The fanout router: a single-owner registry that maps each identity to at
//! most one live outbound buffer and delivers published messages to it.
//!
//! The registry is only ever touched by one control loop, which drains a
//! command queue in arrival order; the loop itself lives in the unverified
//! shell, and every decision it takes is a method here.  Each subscriber owns
//! a bounded buffer: delivery appends to it, the shell drains it into the
//! real outbound stream with `take_next`.

use vstd::prelude::*;

verus! {

/// What the router processes, in strict arrival order: register an outbound
/// for an identity, or publish a message to an identity.
pub enum Command<T> {
    Subscribe(String, u64),
    Message(String, T),
}

/// The mathematical form of a command, over the identity's character string.
pub enum CommandModel<T> {
    Subscribe { identity: Seq<char>, created_at: u64 },
    Message { identity: Seq<char>, message: T },
}

impl<T> View for Command<T> {
    type V = CommandModel<T>;

    open spec fn view(&self) -> CommandModel<T> {
        match self {
            Command::Subscribe(identity, created_at) => CommandModel::Subscribe {
                identity: identity@,
                created_at: *created_at,
            },
            Command::Message(identity, message) => CommandModel::Message {
                identity: identity@,
                message: *message,
            },
        }
    }
}

/// The router's answer to a publish: delivered to the live subscriber, no
/// live subscriber for that identity, or the subscriber's buffer is full and
/// the router refused to wait.  The three are distinguishable so the caller
/// can decide between reporting and retrying.
#[derive(Clone, Copy, Debug, PartialEq, Eq, Structural)]
pub enum DeliveryOutcome {
    Delivered,
    NoSubscriber,
    SubscriberUnresponsive,
}

/// The mathematical state of one subscriber: the messages delivered but not
/// yet drained, whether its outbound was detected closed, and when it
/// registered.
pub struct SubscriberModel<T> {
    pub pending: Seq<T>,
    pub closed: bool,
    pub created_at: u64,
}

/// One live subscription: the identity it serves, its bounded outbound
/// buffer, and the registration time.
struct Subscription<T> {
    identity: String,
    pending: Vec<T>,
    closed: bool,
    created_at: u64,
}

/// The subscriber registry.  At most one subscription per identity; a later
/// subscription for the same identity silently replaces the earlier one.
pub struct ChannelLayer<T> {
    subs: Vec<Subscription<T>>,
    capacity: usize,
}

/// The state of a freshly registered subscriber: an empty, open buffer.
pub open spec fn fresh_subscriber<T>(created_at: u64) -> SubscriberModel<T> {
    SubscriberModel { pending: Seq::empty(), closed: false, created_at }
}

/// Whether a publish to `id` can be handed over: a live, open subscriber
/// with room in its buffer.
pub open spec fn can_deliver<T>(
    m: Map<Seq<char>, SubscriberModel<T>>,
    id: Seq<char>,
    cap: usize,
) -> bool {
    m.contains_key(id) && !m[id].closed && m[id].pending.len() < cap
}

/// The outcome of publishing to `id` in registry state `m`.
pub open spec fn message_outcome<T>(
    m: Map<Seq<char>, SubscriberModel<T>>,
    id: Seq<char>,
    cap: usize,
) -> DeliveryOutcome {
    if !m.contains_key(id) || m[id].closed {
        DeliveryOutcome::NoSubscriber
    } else if m[id].pending.len() < cap {
        DeliveryOutcome::Delivered
    } else {
        DeliveryOutcome::SubscriberUnresponsive
    }
}

/// The registry after one command: a subscription always lands (replacing
/// any earlier one for the identity); a message lands only where it can be
/// delivered, and changes nothing otherwise.
pub open spec fn step_registry<T>(
    m: Map<Seq<char>, SubscriberModel<T>>,
    c: CommandModel<T>,
    cap: usize,
) -> Map<Seq<char>, SubscriberModel<T>> {
    match c {
        CommandModel::Subscribe { identity, created_at } => m.insert(
            identity,
            fresh_subscriber::<T>(created_at),
        ),
        CommandModel::Message { identity, message } => if can_deliver(m, identity, cap) {
            m.insert(
                identity,
                SubscriberModel {
                    pending: m[identity].pending.push(message),
                    closed: false,
                    created_at: m[identity].created_at,
                },
            )
        } else {
            m
        },
    }
}

/// The answer one command produces: subscriptions answer nothing, messages
/// answer their delivery outcome.
pub open spec fn step_outcome<T>(
    m: Map<Seq<char>, SubscriberModel<T>>,
    c: CommandModel<T>,
    cap: usize,
) -> Option<DeliveryOutcome> {
    match c {
        CommandModel::Subscribe { .. } => None,
        CommandModel::Message { identity, .. } => Some(message_outcome(m, identity, cap)),
    }
}

/// The registry after a whole command sequence, processed in order.
pub open spec fn run_commands<T>(
    m: Map<Seq<char>, SubscriberModel<T>>,
    cmds: Seq<CommandModel<T>>,
    cap: usize,
) -> Map<Seq<char>, SubscriberModel<T>>
    decreases cmds.len(),
{
    if cmds.len() == 0 {
        m
    } else {
        run_commands(step_registry(m, cmds[0], cap), cmds.drop_first(), cap)
    }
}

/// Whether a command re-registers `id`.
pub open spec fn is_subscribe_to<T>(c: CommandModel<T>, id: Seq<char>) -> bool {
    match c {
        CommandModel::Subscribe { identity, .. } => identity == id,
        CommandModel::Message { .. } => false,
    }
}

/// The messages a command sequence publishes to `id`, in publish order.
pub open spec fn messages_to<T>(cmds: Seq<CommandModel<T>>, id: Seq<char>) -> Seq<T>
    decreases cmds.len(),
{
    if cmds.len() == 0 {
        Seq::empty()
    } else {
        let rest = messages_to(cmds.drop_first(), id);
        match cmds[0] {
            CommandModel::Message { identity, message } => if identity == id {
                seq![message] + rest
            } else {
                rest
            },
            CommandModel::Subscribe { .. } => rest,
        }
    }
}

/// In-order, exactly-once delivery: over any command sequence that does not
/// re-register `id`, a live open subscriber with room for everything
/// published to it receives exactly those messages, appended in publish
/// order after what it already held.
pub proof fn lemma_in_order_delivery<T>(
    m: Map<Seq<char>, SubscriberModel<T>>,
    cmds: Seq<CommandModel<T>>,
    id: Seq<char>,
    cap: usize,
)
    requires
        m.contains_key(id),
        !m[id].closed,
        forall|k: int| 0 <= k < cmds.len() ==> !is_subscribe_to(#[trigger] cmds[k], id),
        m[id].pending.len() + messages_to(cmds, id).len() <= cap,
    ensures
        run_commands(m, cmds, cap).contains_key(id),
        !run_commands(m, cmds, cap)[id].closed,
        run_commands(m, cmds, cap)[id].created_at == m[id].created_at,
        run_commands(m, cmds, cap)[id].pending == m[id].pending + messages_to(cmds, id),
    decreases cmds.len(),
{
    if cmds.len() == 0 {
        assert(m[id].pending + messages_to(cmds, id) =~= m[id].pending);
    } else {
        let c = cmds[0];
        let rest = cmds.drop_first();
        let m1 = step_registry(m, c, cap);
        assert(!is_subscribe_to(cmds[0], id));
        assert forall|k: int| 0 <= k < rest.len() implies !is_subscribe_to(
            #[trigger] rest[k],
            id,
        ) by {
            assert(rest[k] == cmds[k + 1]);
            assert(!is_subscribe_to(cmds[k + 1], id));
        }
        match c {
            CommandModel::Subscribe { identity, created_at } => {
                assert(identity != id);
                assert(m1[id] == m[id]);
                assert(messages_to(cmds, id) == messages_to(rest, id));
            },
            CommandModel::Message { identity, message } => {
                if identity == id {
                    assert(messages_to(cmds, id) == seq![message] + messages_to(rest, id));
                    assert(messages_to(cmds, id).len() == 1 + messages_to(rest, id).len());
                    assert(can_deliver(m, id, cap));
                    assert(m1[id].pending == m[id].pending.push(message));
                    assert(m[id].pending.push(message) + messages_to(rest, id) =~= m[id].pending
                        + messages_to(cmds, id));
                } else {
                    assert(m1[id] == m[id]);
                    assert(messages_to(cmds, id) == messages_to(rest, id));
                }
            },
        }
        lemma_in_order_delivery(m1, rest, id, cap);
    }
}

/// Re-registering an identity makes only the newest outbound live: after two
/// subscriptions in a row, the registry holds the second's fresh buffer, and
/// a following publish lands there and never in the first's.
pub proof fn lemma_resubscribe_replaces<T>(
    m: Map<Seq<char>, SubscriberModel<T>>,
    id: Seq<char>,
    first_at: u64,
    second_at: u64,
    message: T,
    cap: usize,
)
    requires
        cap >= 1,
    ensures
        ({
            let m1 = step_registry(m, CommandModel::Subscribe { identity: id, created_at: first_at }, cap);
            let m2 = step_registry(
                m1,
                CommandModel::Subscribe { identity: id, created_at: second_at },
                cap,
            );
            let m3 = step_registry(m2, CommandModel::Message { identity: id, message }, cap);
            &&& m2[id] == fresh_subscriber::<T>(second_at)
            &&& m3[id].created_at == second_at
            &&& m3[id].pending == seq![message]
        }),
{
    let m2 = step_registry(
        step_registry(m, CommandModel::Subscribe { identity: id, created_at: first_at }, cap),
        CommandModel::Subscribe { identity: id, created_at: second_at },
        cap,
    );
    let m3 = step_registry(m2, CommandModel::Message { identity: id, message }, cap);
    assert(can_deliver(m2, id, cap));
    assert(m3[id].pending =~= seq![message]);
}

/// Cross-subscriber isolation: publishing to one identity — even one whose
/// buffer is saturated — leaves every other subscriber's state untouched,
/// and a following publish to a live other subscriber with room still
/// delivers.
pub proof fn lemma_saturated_subscriber_isolated<T>(
    m: Map<Seq<char>, SubscriberModel<T>>,
    slow_id: Seq<char>,
    other_id: Seq<char>,
    slow_message: T,
    other_message: T,
    cap: usize,
)
    requires
        slow_id != other_id,
        m.contains_key(other_id),
        !m[other_id].closed,
        m[other_id].pending.len() < cap,
    ensures
        ({
            let m1 = step_registry(
                m,
                CommandModel::Message { identity: slow_id, message: slow_message },
                cap,
            );
            &&& m1[other_id] == m[other_id]
            &&& message_outcome::<T>(m1, other_id, cap) == DeliveryOutcome::Delivered
            &&& step_registry(
                m1,
                CommandModel::Message { identity: other_id, message: other_message },
                cap,
            )[other_id].pending == m[other_id].pending.push(other_message)
        }),
{
}

impl<T> ChannelLayer<T> {
    spec fn sub_model(s: Subscription<T>) -> SubscriberModel<T> {
        SubscriberModel { pending: s.pending@, closed: s.closed, created_at: s.created_at }
    }

    /// The registry is well formed: no two subscriptions share an identity.
    pub closed spec fn wf(&self) -> bool {
        forall|i: int, j: int|
            0 <= i < j < self.subs@.len() ==> self.subs@[i].identity@ != self.subs@[
                j
            ].identity@
    }

    /// The bound every outbound buffer was created with.
    pub closed spec fn cap(&self) -> usize {
        self.capacity
    }

    /// The registry as a map from identity to subscriber state.
    pub closed spec fn registry(&self) -> Map<Seq<char>, SubscriberModel<T>> {
        Map::new(
            |id: Seq<char>|
                exists|i: int| 0 <= i < self.subs@.len() && self.subs@[i].identity@ == id,
            |id: Seq<char>|
                Self::sub_model(
                    self.subs@[
                        choose|i: int|
                            0 <= i < self.subs@.len() && self.subs@[i].identity@ == id
                    ],
                ),
        )
    }

    /// The map entry of the subscription at index `i` is that subscription.
    proof fn lemma_registry_entry(&self, i: int)
        requires
            self.wf(),
            0 <= i < self.subs@.len(),
        ensures
            self.registry().contains_key(self.subs@[i].identity@),
            self.registry()[self.subs@[i].identity@] == Self::sub_model(self.subs@[i]),
    {
        let id = self.subs@[i].identity@;
        assert(0 <= i < self.subs@.len() && self.subs@[i].identity@ == id);
        let j = choose|j: int| 0 <= j < self.subs@.len() && self.subs@[j].identity@ == id;
        if j < i {
            assert(self.subs@[j].identity@ != self.subs@[i].identity@);
        } else if i < j {
            assert(self.subs@[i].identity@ != self.subs@[j].identity@);
        }
    }

    /// An empty router with the given per-subscriber buffer bound.
    pub fn new(capacity: usize) -> (r: ChannelLayer<T>)
        ensures
            r.wf(),
            r.cap() == capacity,
            r.registry() == Map::<Seq<char>, SubscriberModel<T>>::empty(),
    {
        let r = ChannelLayer { subs: Vec::new(), capacity };
        proof {
            assert(r.registry() =~= Map::<Seq<char>, SubscriberModel<T>>::empty());
        }
        r
    }

    /// The index of the subscription for `identity`, if one is registered.
    fn find_index(&self, identity: &String) -> (r: Option<usize>)
        ensures
            match r {
                Some(i) => i < self.subs@.len() && self.subs@[i as int].identity@ == identity@,
                None => forall|j: int|
                    0 <= j < self.subs@.len() ==> self.subs@[j].identity@ != identity@,
            },
    {
        let mut i: usize = 0;
        while i < self.subs.len()
            invariant
                i <= self.subs@.len(),
                forall|j: int| 0 <= j < i ==> self.subs@[j].identity@ != identity@,
            decreases self.subs@.len() - i,
        {
            if self.subs[i].identity == *identity {
                return Some(i);
            }
            i += 1;
        }
        None
    }

    /// Register `identity` with a fresh, empty outbound buffer, replacing
    /// any subscription it had before.  Never fails.
    pub fn subscribe(&mut self, identity: String, now: u64)
        requires
            old(self).wf(),
        ensures
            final(self).wf(),
            final(self).cap() == old(self).cap(),
            final(self).registry() == old(self).registry().insert(
                identity@,
                fresh_subscriber::<T>(now),
            ),
    {
        let idx = self.find_index(&identity);
        let ghost pre = *self;
        let ghost id = identity@;
        let fresh = Subscription {
            identity,
            pending: Vec::new(),
            closed: false,
            created_at: now,
        };
        match idx {
            Some(i) => {
                let slot = crate::vecs::at_mut(&mut self.subs, i);
                *slot = fresh;
                proof {
                    Self::lemma_update_view(pre, *self, i as int, id);
                }
            },
            None => {
                self.subs.push(fresh);
                proof {
                    Self::lemma_append_view(pre, *self, id, now);
                }
            },
        }
    }

    /// Rewriting the subscription at the index already holding `id` updates
    /// the registry map at `id` alone.
    proof fn lemma_update_view(pre: Self, post: Self, i: int, id: Seq<char>)
        requires
            pre.wf(),
            0 <= i < pre.subs@.len(),
            pre.subs@[i].identity@ == id,
            post.subs@ == pre.subs@.update(
                i,
                post.subs@[i],
            ),
            post.subs@[i].identity@ == id,
        ensures
            post.wf(),
            post.registry() == pre.registry().insert(id, Self::sub_model(post.subs@[i])),
    {
        assert forall|a: int, b: int| 0 <= a < b < post.subs@.len() implies post.subs@[
            a
        ].identity@ != post.subs@[b].identity@ by {
            assert(post.subs@[a].identity@ == pre.subs@[a].identity@);
            assert(post.subs@[b].identity@ == pre.subs@[b].identity@);
        }
        let target = pre.registry().insert(id, Self::sub_model(post.subs@[i]));
        assert forall|k: Seq<char>| post.registry().contains_key(k) implies target.contains_key(
            k,
        ) by {
            let w = choose|w: int| 0 <= w < post.subs@.len() && post.subs@[w].identity@ == k;
            if w != i {
                assert(pre.subs@[w].identity@ == k);
                pre.lemma_registry_entry(w);
            }
        }
        assert forall|k: Seq<char>| target.contains_key(k) implies post.registry().contains_key(
            k,
        ) by {
            if k == id {
                post.lemma_registry_entry(i);
            } else {
                let w = choose|w: int| 0 <= w < pre.subs@.len() && pre.subs@[w].identity@ == k;
                assert(post.subs@[w].identity@ == k);
            }
        }
        assert forall|k: Seq<char>| target.contains_key(k) implies post.registry()[k] == target[
            k
        ] by {
            if k == id {
                post.lemma_registry_entry(i);
            } else {
                let w = choose|w: int| 0 <= w < pre.subs@.len() && pre.subs@[w].identity@ == k;
                assert(w != i);
                pre.lemma_registry_entry(w);
                assert(post.subs@[w].identity@ == k);
                post.lemma_registry_entry(w);
            }
        }
        assert(post.registry() =~= target);
    }

    /// Appending a subscription for an identity not yet registered adds one
    /// entry to the registry map.
    proof fn lemma_append_view(pre: Self, post: Self, id: Seq<char>, now: u64)
        requires
            pre.wf(),
            forall|j: int| 0 <= j < pre.subs@.len() ==> pre.subs@[j].identity@ != id,
            post.subs@ == pre.subs@.push(post.subs@.last()),
            post.subs@.last().identity@ == id,
            Self::sub_model(post.subs@.last()) == fresh_subscriber::<T>(now),
        ensures
            post.wf(),
            post.registry() == pre.registry().insert(id, fresh_subscriber::<T>(now)),
    {
        let n = pre.subs@.len() as int;
        assert forall|a: int, b: int| 0 <= a < b < post.subs@.len() implies post.subs@[
            a
        ].identity@ != post.subs@[b].identity@ by {
            if b < n {
                assert(post.subs@[a].identity@ == pre.subs@[a].identity@);
                assert(post.subs@[b].identity@ == pre.subs@[b].identity@);
            } else {
                assert(post.subs@[a].identity@ == pre.subs@[a].identity@);
                assert(post.subs@[b].identity@ == id);
            }
        }
        let target = pre.registry().insert(id, fresh_subscriber::<T>(now));
        assert forall|k: Seq<char>| post.registry().contains_key(k) implies target.contains_key(
            k,
        ) by {
            let w = choose|w: int| 0 <= w < post.subs@.len() && post.subs@[w].identity@ == k;
            if w < n {
                assert(pre.subs@[w].identity@ == k);
                pre.lemma_registry_entry(w);
            }
        }
        assert forall|k: Seq<char>| target.contains_key(k) implies post.registry().contains_key(
            k,
        ) by {
            if k == id {
                post.lemma_registry_entry(n);
            } else {
                let w = choose|w: int| 0 <= w < pre.subs@.len() && pre.subs@[w].identity@ == k;
                assert(post.subs@[w].identity@ == k);
            }
        }
        assert forall|k: Seq<char>| target.contains_key(k) implies post.registry()[k] == target[
            k
        ] by {
            if k == id {
                post.lemma_registry_entry(n);
            } else {
                let w = choose|w: int| 0 <= w < pre.subs@.len() && pre.subs@[w].identity@ == k;
                pre.lemma_registry_entry(w);
                assert(post.subs@[w].identity@ == k);
                post.lemma_registry_entry(w);
            }
        }
        assert(post.registry() =~= target);
    }

    /// Publish `message` to the subscriber registered for `identity`.
    /// Delivery appends to that subscriber's buffer; an identity without a
    /// live, open subscription gets `NoSubscriber` and the router's state is
    /// untouched; a full buffer gets `SubscriberUnresponsive` without
    /// waiting, so one slow subscriber never stalls the control loop.
    pub fn publish(&mut self, identity: &String, message: T) -> (r: DeliveryOutcome)
        requires
            old(self).wf(),
        ensures
            final(self).wf(),
            final(self).cap() == old(self).cap(),
            r == message_outcome::<T>(old(self).registry(), identity@, old(self).cap()),
            final(self).registry() == step_registry::<T>(
                old(self).registry(),
                CommandModel::Message { identity: identity@, message },
                old(self).cap(),
            ),
            r != DeliveryOutcome::Delivered ==> *final(self) == *old(self),
    {
        let ghost pre = *self;
        let idx = self.find_index(identity);
        match idx {
            None => {
                proof {
                    if pre.registry().contains_key(identity@) {
                        let w = choose|w: int|
                            0 <= w < pre.subs@.len() && pre.subs@[w].identity@ == identity@;
                        assert(pre.subs@[w].identity@ != identity@);
                    }
                }
                DeliveryOutcome::NoSubscriber
            },
            Some(i) => {
                proof {
                    pre.lemma_registry_entry(i as int);
                }
                if self.subs[i].closed {
                    DeliveryOutcome::NoSubscriber
                } else if self.subs[i].pending.len() < self.capacity {
                    let slot = crate::vecs::at_mut(&mut self.subs, i);
                    slot.pending.push(message);
                    proof {
                        Self::lemma_update_view(pre, *self, i as int, identity@);
                    }
                    DeliveryOutcome::Delivered
                } else {
                    DeliveryOutcome::SubscriberUnresponsive
                }
            },
        }
    }

    /// Hand out the oldest undrained message of `identity`'s subscriber, if
    /// any.  The shell calls this to move delivered messages onto the real
    /// outbound stream, preserving delivery order.
    pub fn take_next(&mut self, identity: &String) -> (r: Option<T>)
        requires
            old(self).wf(),
        ensures
            final(self).wf(),
            final(self).cap() == old(self).cap(),
            match r {
                Some(message) => {
                    &&& old(self).registry().contains_key(identity@)
                    &&& old(self).registry()[identity@].pending.len() > 0
                    &&& message == old(self).registry()[identity@].pending[0]
                    &&& final(self).registry() == old(self).registry().insert(
                        identity@,
                        (SubscriberModel {
                            pending: old(self).registry()[identity@].pending.drop_first(),
                            closed: old(self).registry()[identity@].closed,
                            created_at: old(self).registry()[identity@].created_at,
                        }),
                    )
                },
                None => {
                    &&& (!old(self).registry().contains_key(identity@) || old(
                        self,
                    ).registry()[identity@].pending.len() == 0)
                    &&& *final(self) == *old(self)
                },
            },
    {
        let ghost pre = *self;
        let idx = self.find_index(identity);
        match idx {
            None => {
                proof {
                    if pre.registry().contains_key(identity@) {
                        let w = choose|w: int|
                            0 <= w < pre.subs@.len() && pre.subs@[w].identity@ == identity@;
                        assert(pre.subs@[w].identity@ != identity@);
                    }
                }
                None
            },
            Some(i) => {
                proof {
                    pre.lemma_registry_entry(i as int);
                }
                if self.subs[i].pending.len() == 0 {
                    None
                } else {
                    let slot = crate::vecs::at_mut(&mut self.subs, i);
                    let message = slot.pending.remove(0);
                    proof {
                        Self::lemma_update_view(pre, *self, i as int, identity@);
                        assert(pre.subs@[i as int].pending@.remove(0) =~= pre.subs@[
                            i as int
                        ].pending@.drop_first());
                    }
                    Some(message)
                }
            },
        }
    }

    /// Mark `identity`'s subscription closed: its outbound was found dropped
    /// on a send attempt, and publishing to it from now on answers
    /// `NoSubscriber` instead of retrying.
    pub fn close(&mut self, identity: &String) -> (r: bool)
        requires
            old(self).wf(),
        ensures
            final(self).wf(),
            final(self).cap() == old(self).cap(),
            r == old(self).registry().contains_key(identity@),
            r ==> final(self).registry() == old(self).registry().insert(
                identity@,
                (SubscriberModel {
                    pending: old(self).registry()[identity@].pending,
                    closed: true,
                    created_at: old(self).registry()[identity@].created_at,
                }),
            ),
            !r ==> *final(self) == *old(self),
    {
        let ghost pre = *self;
        let idx = self.find_index(identity);
        match idx {
            None => {
                proof {
                    if pre.registry().contains_key(identity@) {
                        let w = choose|w: int|
                            0 <= w < pre.subs@.len() && pre.subs@[w].identity@ == identity@;
                        assert(pre.subs@[w].identity@ != identity@);
                    }
                }
                false
            },
            Some(i) => {
                proof {
                    pre.lemma_registry_entry(i as int);
                }
                let slot = crate::vecs::at_mut(&mut self.subs, i);
                slot.closed = true;
                proof {
                    Self::lemma_update_view(pre, *self, i as int, identity@);
                }
                true
            },
        }
    }

    /// Orderly shutdown, taken when the command queue is permanently closed:
    /// every outbound is marked closed, no subscription is dropped, and the
    /// hosting process is left to decide what comes next.
    pub fn shutdown(&mut self)
        requires
            old(self).wf(),
        ensures
            final(self).wf(),
            final(self).cap() == old(self).cap(),
            final(self).registry().dom() == old(self).registry().dom(),
            forall|id: Seq<char>| #[trigger]
                old(self).registry().contains_key(id) ==> final(self).registry()[id]
                    == (SubscriberModel {
                    pending: old(self).registry()[id].pending,
                    closed: true,
                    created_at: old(self).registry()[id].created_at,
                }),
    {
        let ghost pre = *self;
        let mut i: usize = 0;
        while i < self.subs.len()
            invariant
                i <= self.subs@.len(),
                self.subs@.len() == pre.subs@.len(),
                self.capacity == pre.capacity,
                forall|j: int|
                    0 <= j < self.subs@.len() ==> #[trigger] self.subs@[j].identity@ == pre.subs@[
                        j
                    ].identity@ && self.subs@[j].pending == pre.subs@[j].pending && self.subs@[
                        j
                    ].created_at == pre.subs@[j].created_at,
                forall|j: int| 0 <= j < i ==> #[trigger] self.subs@[j].closed == true,
                forall|j: int|
                    i <= j < self.subs@.len() ==> #[trigger] self.subs@[j].closed == pre.subs@[
                        j
                    ].closed,
            decreases self.subs@.len() - i,
        {
            let slot = crate::vecs::at_mut(&mut self.subs, i);
            slot.closed = true;
            i += 1;
        }
        proof {
            assert(pre.wf());
            assert forall|a: int, b: int| 0 <= a < b < self.subs@.len() implies self.subs@[
                a
            ].identity@ != self.subs@[b].identity@ by {
                assert(self.subs@[a].identity@ == pre.subs@[a].identity@);
                assert(self.subs@[b].identity@ == pre.subs@[b].identity@);
            }
            assert forall|id: Seq<char>| pre.registry().contains_key(id) implies #[trigger] self
                .registry().contains_key(id) by {
                let w = choose|w: int|
                    0 <= w < pre.subs@.len() && pre.subs@[w].identity@ == id;
                assert(self.subs@[w].identity@ == id);
            }
            assert forall|id: Seq<char>| self.registry().contains_key(id) implies #[trigger] pre
                .registry().contains_key(id) by {
                let w = choose|w: int|
                    0 <= w < self.subs@.len() && self.subs@[w].identity@ == id;
                assert(pre.subs@[w].identity@ == id);
            }
            assert(self.registry().dom() =~= pre.registry().dom());
            assert forall|id: Seq<char>| #[trigger] pre.registry().contains_key(id) implies self
                .registry()[id] == (SubscriberModel {
                pending: pre.registry()[id].pending,
                closed: true,
                created_at: pre.registry()[id].created_at,
            }) by {
                let w = choose|w: int|
                    0 <= w < pre.subs@.len() && pre.subs@[w].identity@ == id;
                pre.lemma_registry_entry(w);
                assert(self.subs@[w].identity@ == id);
                self.lemma_registry_entry(w);
            }
        }
    }

    /// The body of the control loop: process one command, in arrival order.
    /// Exhaustive over the command kinds; a subscription answers nothing, a
    /// message answers its delivery outcome.
    pub fn handle_command(&mut self, cmd: Command<T>) -> (r: Option<DeliveryOutcome>)
        requires
            old(self).wf(),
        ensures
            final(self).wf(),
            final(self).cap() == old(self).cap(),
            final(self).registry() == step_registry::<T>(
                old(self).registry(),
                cmd@,
                old(self).cap(),
            ),
            r == step_outcome::<T>(old(self).registry(), cmd@, old(self).cap()),
    {
        match cmd {
            Command::Subscribe(identity, created_at) => {
                self.subscribe(identity, created_at);
                None
            },
            Command::Message(identity, message) => Some(self.publish(&identity, message)),
        }
    }
}

} // verus!
