use vstd::prelude::*;
use vstd::string::StringExecFns;
use crate::hub::BroadcastHub;
use crate::hub::Subscription;
use crate::ids::fresh_token;
use crate::message::ChannelMessage;
use crate::message::ChannelMessageView;

verus! {

/// How many not-yet-delivered messages a channel's hub retains for its
/// slowest subscriber before dropping the oldest.
pub const MAX_CHANNEL_CAPACITY: usize = 100;

/// A named, password-protected broadcast domain: an identifier, the
/// password presented at creation, and the hub that fans messages out to
/// the channel's participants. Identifier and password never change once
/// the channel exists.
pub struct Channel {
    id: String,
    password: String,
    hub: BroadcastHub,
}

impl Channel {
    pub closed spec fn id_spec(&self) -> Seq<char> {
        self.id@
    }

    pub closed spec fn password_spec(&self) -> Seq<char> {
        self.password@
    }

    pub closed spec fn hub_spec(&self) -> BroadcastHub {
        self.hub
    }

    pub open spec fn wf(&self) -> bool {
        &&& self.hub_spec().wf()
        &&& self.hub_spec().cap() == MAX_CHANNEL_CAPACITY as int
    }

    pub fn id(&self) -> (r: &String)
        ensures
            r@ == self.id_spec(),
    {
        &self.id
    }

    pub fn hub(&self) -> (r: &BroadcastHub)
        ensures
            *r == self.hub_spec(),
    {
        &self.hub
    }

    /// A participant's live handle into this channel, starting at "now".
    pub fn subscribe(&self) -> (s: Subscription)
        requires
            self.wf(),
        ensures
            s.cursor() == self.hub_spec().history().len(),
    {
        self.hub.subscribe()
    }
}

/// The shared mapping from channel id to channel. It creates channels and
/// looks them up for join attempts; once inserted, a channel is never
/// removed or renamed.
pub struct ChannelRegistry {
    channels: Vec<Channel>,
}

impl ChannelRegistry {
    pub closed spec fn channels_seq(&self) -> Seq<Channel> {
        self.channels@
    }

    pub open spec fn channel_count(&self) -> nat {
        self.channels_seq().len()
    }

    pub open spec fn channel_at(&self, i: int) -> Channel {
        self.channels_seq()[i]
    }

    /// Whether some channel in the registry carries this id.
    pub open spec fn has_channel(&self, id: Seq<char>) -> bool {
        exists|i: int|
            0 <= i < self.channel_count() && (#[trigger] self.channel_at(i)).id_spec() == id
    }

    /// The position of the channel carrying this id; meaningful only when
    /// `has_channel(id)` holds, and then unique because ids are unique.
    pub open spec fn index_of(&self, id: Seq<char>) -> int {
        choose|i: int|
            0 <= i < self.channel_count() && (#[trigger] self.channel_at(i)).id_spec() == id
    }

    pub open spec fn password_of(&self, id: Seq<char>) -> Seq<char> {
        self.channel_at(self.index_of(id)).password_spec()
    }

    pub open spec fn history_of(&self, id: Seq<char>) -> Seq<ChannelMessageView> {
        self.channel_at(self.index_of(id)).hub_spec().history()
    }

    /// Ids are unique and every channel's hub is well formed, with the
    /// fixed retention bound.
    pub open spec fn wf(&self) -> bool {
        &&& forall|i: int, j: int|
            0 <= i < self.channel_count() && 0 <= j < self.channel_count() && i != j
                ==> (#[trigger] self.channel_at(i)).id_spec() != (
            #[trigger] self.channel_at(j)).id_spec()
        &&& forall|i: int| 0 <= i < self.channel_count() ==> (#[trigger] self.channel_at(i)).wf()
    }

    /// The longest id among the first `n` channels; no stored id is longer.
    spec fn max_id_len_upto(s: Seq<Channel>, n: int) -> int
        decreases n,
    {
        if n <= 0 {
            0
        } else {
            let m = Self::max_id_len_upto(s, n - 1);
            let l = s[n - 1].id@.len() as int;
            if l > m {
                l
            } else {
                m
            }
        }
    }

    proof fn lemma_max_id_len(s: Seq<Channel>, n: int, i: int)
        requires
            0 <= i < n,
        ensures
            s[i].id@.len() <= Self::max_id_len_upto(s, n),
        decreases n,
    {
        if i < n - 1 {
            Self::lemma_max_id_len(s, n - 1, i);
        }
    }

    /// Termination measure for the id-retry loop: how much longer a
    /// colliding candidate can still grow before it is longer than every
    /// stored id and so cannot collide any more.
    spec fn retry_fuel(&self, id: Seq<char>) -> int {
        if self.has_channel(id) {
            Self::max_id_len_upto(self.channels_seq(), self.channel_count() as int) + 1
                - id.len()
        } else {
            0
        }
    }

    proof fn lemma_retry_fuel_pos(&self, id: Seq<char>)
        requires
            self.has_channel(id),
        ensures
            self.retry_fuel(id) >= 1,
    {
        let i = choose|i: int|
            0 <= i < self.channel_count() && (#[trigger] self.channel_at(i)).id_spec() == id;
        Self::lemma_max_id_len(self.channels_seq(), self.channel_count() as int, i);
    }

    /// An empty registry: no channels yet.
    pub fn new() -> (r: ChannelRegistry)
        ensures
            r.wf(),
            r.channel_count() == 0,
            forall|c: Seq<char>| !r.has_channel(c),
    {
        ChannelRegistry { channels: Vec::new() }
    }

    /// When a channel with this id exists, its index is the one
    /// `index_of` names, and no other position carries the id.
    proof fn lemma_index_of(&self, id: Seq<char>)
        requires
            self.wf(),
            self.has_channel(id),
        ensures
            0 <= self.index_of(id) < self.channel_count(),
            self.channel_at(self.index_of(id)).id_spec() == id,
            forall|j: int|
                0 <= j < self.channel_count() && (#[trigger] self.channel_at(j)).id_spec() == id
                    ==> j == self.index_of(id),
    {
    }

    fn contains_id(&self, id: &String) -> (r: bool)
        ensures
            r == self.has_channel(id@),
    {
        let mut i: usize = 0;
        while i < self.channels.len()
            invariant
                0 <= i <= self.channels@.len(),
                forall|j: int| 0 <= j < i ==> (#[trigger] self.channel_at(j)).id_spec() != id@,
            decreases self.channels@.len() - i,
        {
            if self.channels[i].id.eq(id) {
                assert(self.channel_at(i as int).id_spec() == id@);
                return true;
            }
            i = i + 1;
        }
        false
    }

    /// Allocate a fresh unique id, construct a channel with a new empty hub
    /// and the given password, insert it, and return the id. Channels
    /// already present keep their id, password and history untouched.
    pub fn create(&mut self, password: String) -> (id: String)
        requires
            old(self).wf(),
        ensures
            final(self).wf(),
            !old(self).has_channel(id@),
            final(self).password_of(id@) == password@,
            final(self).history_of(id@) == Seq::<ChannelMessageView>::empty(),
            forall|c: Seq<char>|
                #[trigger] final(self).has_channel(c) <==> (old(self).has_channel(c) || c
                    == id@),
            forall|c: Seq<char>|
                #[trigger] old(self).has_channel(c) ==> final(self).password_of(c) == old(
                    self,
                ).password_of(c) && final(self).history_of(c) == old(self).history_of(c),
    {
        let mut id = fresh_token();
        let mut dup = self.contains_id(&id);
        while dup
            invariant
                *self == *old(self),
                dup == self.has_channel(id@),
            decreases self.retry_fuel(id@),
        {
            proof {
                self.lemma_retry_fuel_pos(id@);
                reveal_strlit("x");
            }
            id.append("x");
            dup = self.contains_id(&id);
            proof {
                if dup {
                    self.lemma_retry_fuel_pos(id@);
                }
            }
        }
        let ghost pre = *self;
        let hub = BroadcastHub::new(MAX_CHANNEL_CAPACITY);
        let channel = Channel { id: id.clone(), password, hub };
        self.channels.push(channel);
        proof {
            let n = pre.channel_count() as int;
            assert(self.channel_at(n).id_spec() == id@);
            assert forall|i: int| 0 <= i < n implies self.channel_at(i) == pre.channel_at(
                i,
            ) by {}
            assert forall|a: int, b: int|
                0 <= a < self.channel_count() && 0 <= b < self.channel_count() && a != b
                implies (self.channel_at(a)).id_spec() != (self.channel_at(b)).id_spec() by {
                if a < n && b < n {
                    assert(pre.channel_at(a).id_spec() != pre.channel_at(b).id_spec());
                } else if a == n {
                    if self.channel_at(b).id_spec() == id@ {
                        assert(pre.channel_at(b).id_spec() == id@);
                        assert(pre.has_channel(id@));
                    }
                } else {
                    if self.channel_at(a).id_spec() == id@ {
                        assert(pre.channel_at(a).id_spec() == id@);
                        assert(pre.has_channel(id@));
                    }
                }
            }
            assert forall|a: int| 0 <= a < self.channel_count() implies (self.channel_at(
                a,
            )).wf() by {
                if a < n {
                    assert(pre.channel_at(a).wf());
                }
            }
            assert(self.wf());
            assert(self.has_channel(id@));
            self.lemma_index_of(id@);
            assert(self.index_of(id@) == n);
            assert forall|c: Seq<char>| #[trigger]
                self.has_channel(c) <==> (pre.has_channel(c) || c == id@) by {
                if self.has_channel(c) {
                    let i = choose|i: int|
                        0 <= i < self.channel_count() && (#[trigger] self.channel_at(
                            i,
                        )).id_spec() == c;
                    if i < n {
                        assert(pre.channel_at(i).id_spec() == c);
                        assert(pre.has_channel(c));
                    }
                }
                if pre.has_channel(c) {
                    let i = choose|i: int|
                        0 <= i < pre.channel_count() && (#[trigger] pre.channel_at(
                            i,
                        )).id_spec() == c;
                    assert(self.channel_at(i).id_spec() == c);
                    assert(self.has_channel(c));
                }
            }
            assert forall|c: Seq<char>| #[trigger]
                pre.has_channel(c) implies self.password_of(c) == pre.password_of(c)
                && self.history_of(c) == pre.history_of(c) by {
                pre.lemma_index_of(c);
                let i = pre.index_of(c);
                assert(self.channel_at(i).id_spec() == c);
                assert(self.has_channel(c));
                self.lemma_index_of(c);
                assert(self.index_of(c) == i);
            }
        }
        id
    }

    /// Retrieve the channel by id and check the password: `Some(i)` with
    /// the channel's position exactly when the id exists and the password
    /// matches; one indistinguishable `None` for an absent id or a
    /// mismatching password.
    pub fn lookup_and_authorize(&self, id: &String, password: &String) -> (r: Option<usize>)
        requires
            self.wf(),
        ensures
            match r {
                Some(i) => {
                    &&& self.has_channel(id@)
                    &&& self.password_of(id@) == password@
                    &&& i < self.channel_count()
                    &&& i == self.index_of(id@)
                    &&& self.channel_at(i as int).id_spec() == id@
                    &&& self.channel_at(i as int).password_spec() == password@
                },
                None => !(self.has_channel(id@) && self.password_of(id@) == password@),
            },
    {
        let mut i: usize = 0;
        while i < self.channels.len()
            invariant
                self.wf(),
                0 <= i <= self.channels@.len(),
                forall|j: int| 0 <= j < i ==> (#[trigger] self.channel_at(j)).id_spec() != id@,
            decreases self.channels@.len() - i,
        {
            if self.channels[i].id.eq(id) {
                proof {
                    assert(self.channel_at(i as int).id_spec() == id@);
                    assert(self.has_channel(id@));
                    self.lemma_index_of(id@);
                    assert(self.index_of(id@) == i as int);
                }
                if self.channels[i].password.eq(password) {
                    return Some(i);
                } else {
                    return None;
                }
            }
            i = i + 1;
        }
        None
    }

    /// Shared handle to the channel at a known position, for a caller that
    /// has just been authorized.
    pub fn channel(&self, i: usize) -> (c: &Channel)
        requires
            i < self.channel_count(),
        ensures
            *c == self.channel_at(i as int),
    {
        &self.channels[i]
    }

    /// Fan a message out through the hub of the channel at position `i`;
    /// every other channel is left untouched.
    pub fn publish_message(&mut self, i: usize, msg: ChannelMessage)
        requires
            old(self).wf(),
            i < old(self).channel_count(),
            old(self).channel_at(i as int).hub_spec().history().len() < u64::MAX,
        ensures
            final(self).wf(),
            final(self).channel_count() == old(self).channel_count(),
            final(self).channel_at(i as int).id_spec() == old(self).channel_at(
                i as int,
            ).id_spec(),
            final(self).channel_at(i as int).password_spec() == old(self).channel_at(
                i as int,
            ).password_spec(),
            final(self).channel_at(i as int).hub_spec().history() == old(self).channel_at(
                i as int,
            ).hub_spec().history().push(msg@),
            forall|j: int|
                0 <= j < old(self).channel_count() && j != i ==> final(self).channel_at(j)
                    == old(self).channel_at(j),
            forall|c: Seq<char>|
                #[trigger] final(self).has_channel(c) <==> old(self).has_channel(c),
            forall|c: Seq<char>|
                #[trigger] old(self).has_channel(c) ==> final(self).password_of(c) == old(
                    self,
                ).password_of(c),
            forall|c: Seq<char>|
                #[trigger] old(self).has_channel(c) && c != old(self).channel_at(
                    i as int,
                ).id_spec() ==> final(self).history_of(c) == old(self).history_of(c),
            final(self).history_of(old(self).channel_at(i as int).id_spec()) == old(
                self,
            ).history_of(old(self).channel_at(i as int).id_spec()).push(msg@),
    {
        let ghost pre = *self;
        let mut ch = self.channels.remove(i);
        ch.hub.publish(msg);
        self.channels.insert(i, ch);
        proof {
            assert forall|j: int|
                0 <= j < pre.channel_count() && j != i implies self.channel_at(j)
                == pre.channel_at(j) by {}
            assert(self.channel_at(i as int).id_spec() == pre.channel_at(i as int).id_spec());
            assert forall|a: int, b: int|
                0 <= a < self.channel_count() && 0 <= b < self.channel_count() && a != b
                implies (self.channel_at(a)).id_spec() != (self.channel_at(b)).id_spec() by {
                assert(self.channel_at(a).id_spec() == pre.channel_at(a).id_spec());
                assert(self.channel_at(b).id_spec() == pre.channel_at(b).id_spec());
                assert(pre.channel_at(a).id_spec() != pre.channel_at(b).id_spec());
            }
            assert forall|a: int| 0 <= a < self.channel_count() implies (self.channel_at(
                a,
            )).wf() by {
                if a != i {
                    assert(pre.channel_at(a).wf());
                }
            }
            assert(self.wf());
            assert forall|c: Seq<char>| #[trigger]
                self.has_channel(c) <==> pre.has_channel(c) by {
                if self.has_channel(c) {
                    let k = choose|k: int|
                        0 <= k < self.channel_count() && (#[trigger] self.channel_at(
                            k,
                        )).id_spec() == c;
                    assert(pre.channel_at(k).id_spec() == c);
                    assert(pre.has_channel(c));
                }
                if pre.has_channel(c) {
                    let k = choose|k: int|
                        0 <= k < pre.channel_count() && (#[trigger] pre.channel_at(
                            k,
                        )).id_spec() == c;
                    assert(self.channel_at(k).id_spec() == c);
                    assert(self.has_channel(c));
                }
            }
            assert forall|c: Seq<char>| #[trigger]
                pre.has_channel(c) implies self.password_of(c) == pre.password_of(c) && (c
                != pre.channel_at(i as int).id_spec() ==> self.history_of(c)
                == pre.history_of(c)) by {
                pre.lemma_index_of(c);
                let k = pre.index_of(c);
                assert(self.channel_at(k).id_spec() == c);
                assert(self.has_channel(c));
                self.lemma_index_of(c);
                assert(self.index_of(c) == k);
            }
            assert(pre.has_channel(pre.channel_at(i as int).id_spec()));
            pre.lemma_index_of(pre.channel_at(i as int).id_spec());
            self.lemma_index_of(pre.channel_at(i as int).id_spec());
            assert(pre.index_of(pre.channel_at(i as int).id_spec()) == i as int);
            assert(self.index_of(pre.channel_at(i as int).id_spec()) == i as int);
        }
    }
}

/// Authorization law: a join succeeds exactly for an id handed out by a
/// prior create call, presented with that channel's exact password. The
/// hypotheses are what `create` guarantees about the registry before and
/// after it ran; the conclusions are the condition under which
/// `lookup_and_authorize` returns a handle rather than the one
/// indistinguishable unauthorized outcome: the created pair passes, the
/// same id with any other password fails, and an id never created fails
/// with every password.
pub proof fn lemma_join_succeeds_iff_created(
    pre: ChannelRegistry,
    post: ChannelRegistry,
    id: Seq<char>,
    password: Seq<char>,
    other_id: Seq<char>,
    other_pw: Seq<char>,
)
    requires
        !pre.has_channel(id),
        post.password_of(id) == password,
        forall|c: Seq<char>| #[trigger] post.has_channel(c) <==> (pre.has_channel(c) || c == id),
    ensures
        post.has_channel(id) && post.password_of(id) == password,
        other_pw != password ==> !(post.has_channel(id) && post.password_of(id) == other_pw),
        !pre.has_channel(other_id) && other_id != id ==> !post.has_channel(other_id),
{
}

/// Uniqueness law for created ids: an id handed out by one create call is
/// never handed out by a later one. The first call returns an id that was
/// absent and is present afterwards; ids are never removed between calls;
/// and the later call again returns an id that was absent when it ran — so
/// the two ids differ.
pub proof fn lemma_create_ids_distinct(
    r1: ChannelRegistry,
    id1: Seq<char>,
    r2: ChannelRegistry,
    id2: Seq<char>,
)
    requires
        r1.has_channel(id1),
        forall|c: Seq<char>| #[trigger] r1.has_channel(c) ==> r2.has_channel(c),
        !r2.has_channel(id2),
    ensures
        id1 != id2,
{
}

} // verus!
