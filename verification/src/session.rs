//! The per-session registry the transport dispatches through.
//!
//! A session owns every live channel, issues each a fresh identifier, and
//! routes each event to the channel whose identifier it targets. It also
//! counts create and delete calls, so ownership can be audited: every
//! identifier ever issued is either live or has been deleted exactly once.

use vstd::prelude::*;
use crate::channel::RtcDataChannel;
use crate::event::Event;
use crate::framing::{make_frame, OutFrame, SendError};
use crate::handler::{DataChannel, MakeDataChannel};

verus! {

/// All channels of one session, with the identifier source and the
/// create/delete accounting.
pub struct Session<D> {
    channels: Vec<RtcDataChannel<D>>,
    next_id: i32,
    created: u64,
    deleted: u64,
}

impl<D> Session<D> where D: DataChannel {
    /// The identifiers of the live channels, in creation order.
    pub closed spec fn ids(&self) -> Seq<i32> {
        self.channels@.map_values(|c: RtcDataChannel<D>| c.cid())
    }

    /// Whether a channel with identifier `id` is live.
    pub open spec fn live(&self, id: i32) -> bool {
        self.ids().contains(id)
    }

    /// The live channel at position `i` of the creation order.
    pub closed spec fn chan_at(&self, i: int) -> RtcDataChannel<D> {
        self.channels@[i]
    }

    /// How many create calls the transport has served.
    pub closed spec fn created_count(&self) -> int {
        self.created as int
    }

    /// How many delete calls the transport has served.
    pub closed spec fn deleted_count(&self) -> int {
        self.deleted as int
    }

    /// Whether the identifier source can issue another identifier.
    pub closed spec fn can_issue(&self) -> bool {
        self.next_id < i32::MAX
    }

    /// The session's invariant: identifiers are pairwise distinct and
    /// below the issue bound, and the counters balance the live count.
    pub closed spec fn wf(&self) -> bool {
        &&& forall|i: int, j: int|
            0 <= i < j < self.ids().len() ==> self.ids()[i] != self.ids()[j]
        &&& forall|i: int| 0 <= i < self.ids().len() ==> self.ids()[i] < self.next_id
        &&& 0 <= self.next_id
        &&& self.created == self.next_id
        &&& self.deleted + self.ids().len() == self.created
    }

    /// A fresh session: no channel live, nothing created or deleted.
    pub fn new() -> (s: Self)
        ensures
            s.wf(),
            s.ids() == Seq::<i32>::empty(),
            s.created_count() == 0,
            s.deleted_count() == 0,
            s.can_issue(),
    {
        let s = Session { channels: Vec::new(), next_id: 0, created: 0, deleted: 0 };
        proof {
            assert(s.ids() =~= Seq::<i32>::empty());
        }
        s
    }

    /// Create a channel with `label` and attach `dc` as its handler. The
    /// issued identifier is fresh: no live channel shares it, before or
    /// after. Every channel that was live is untouched.
    pub fn create(&mut self, label: Vec<u8>, dc: D) -> (id: i32)
        requires
            old(self).wf(),
            old(self).can_issue(),
        ensures
            final(self).wf(),
            !old(self).live(id),
            final(self).live(id),
            forall|x: i32| final(self).live(x) <==> old(self).live(x) || x == id,
            final(self).ids() == old(self).ids().push(id),
            final(self).created_count() == old(self).created_count() + 1,
            final(self).deleted_count() == old(self).deleted_count(),
            forall|i: int| 0 <= i < old(self).ids().len() ==> final(self).chan_at(i) == old(self).chan_at(i),
            final(self).chan_at(old(self).ids().len() as int).cid() == id,
            final(self).chan_at(old(self).ids().len() as int).label_bytes() == label@,
            final(self).chan_at(old(self).ids().len() as int).log() == Seq::<
                crate::event::EventV,
            >::empty(),
    {
        let id = self.next_id;
        self.next_id = self.next_id + 1;
        self.created = self.created + 1;
        let ch = RtcDataChannel::new(id, label, dc);
        self.channels.push(ch);
        proof {
            assert(self.ids() =~= old(self).ids().push(id));
            assert(self.ids()[self.ids().len() - 1] == id);
            assert(!old(self).live(id));
            assert forall|x: i32| self.live(x) <==> old(self).live(x) || x == id by {
                if old(self).live(x) {
                    let i = choose|i: int|
                        0 <= i < old(self).ids().len() && old(self).ids()[i] == x;
                    assert(self.ids()[i] == x);
                }
                if self.live(x) && x != id {
                    let i = choose|i: int| 0 <= i < self.ids().len() && self.ids()[i] == x;
                    assert(i < old(self).ids().len());
                    assert(old(self).ids()[i] == x);
                }
            }
        }
        id
    }

    /// Accept a remotely opened channel: make a fresh handler with `maker`
    /// and register it exactly as `create` does.
    pub fn accept<M: MakeDataChannel<D>>(&mut self, label: Vec<u8>, maker: &M) -> (id: i32)
        requires
            old(self).wf(),
            old(self).can_issue(),
        ensures
            final(self).wf(),
            !old(self).live(id),
            final(self).live(id),
            forall|x: i32| final(self).live(x) <==> old(self).live(x) || x == id,
            final(self).ids() == old(self).ids().push(id),
            final(self).created_count() == old(self).created_count() + 1,
            final(self).deleted_count() == old(self).deleted_count(),
            forall|i: int| 0 <= i < old(self).ids().len() ==> final(self).chan_at(i) == old(self).chan_at(i),
    {
        let dc = maker.make();
        self.create(label, dc)
    }

    /// Whether the registry still holds `id`: after deletion this is
    /// false, and no event can be dispatched to `id` any more.
    pub fn contains(&self, id: i32) -> (r: bool)
        ensures
            r == self.live(id),
    {
        let n = self.channels.len();
        let mut j: usize = 0;
        while j < n
            invariant
                0 <= j <= n,
                n == self.ids().len(),
                forall|k: int| 0 <= k < j ==> self.ids()[k] != id,
            decreases n - j,
        {
            if self.channels[j].id() == id {
                assert(self.ids()[j as int] == id);
                return true;
            }
            assert(self.ids()[j as int] != id);
            j = j + 1;
        }
        assert(!self.ids().contains(id));
        false
    }

    /// Route one event to the channel whose identifier it targets.
    /// Exactly that channel receives it — its log is extended by the event
    /// — and every other channel is untouched; if no live channel has the
    /// identifier, nothing at all happens and nothing is delivered.
    pub fn dispatch(&mut self, id: i32, ev: Event) -> (delivered: bool)
        requires
            old(self).wf(),
        ensures
            final(self).wf(),
            delivered == old(self).live(id),
            final(self).ids() == old(self).ids(),
            final(self).created_count() == old(self).created_count(),
            final(self).deleted_count() == old(self).deleted_count(),
            !old(self).live(id) ==> *final(self) == *old(self),
            forall|i: int|
                0 <= i < old(self).ids().len() && old(self).ids()[i] != id ==> final(self).chan_at(i) == old(self).chan_at(i),
            forall|i: int|
                0 <= i < old(self).ids().len() && old(self).ids()[i] == id ==> {
                    &&& final(self).chan_at(i).cid() == id
                    &&& final(self).chan_at(i).label_bytes() == old(self).chan_at(i).label_bytes()
                    &&& final(self).chan_at(i).log() == old(self).chan_at(i).log().push(ev@)
                },
    {
        let n = self.channels.len();
        let mut j: usize = 0;
        while j < n
            invariant
                0 <= j <= n,
                *self == *old(self),
                n == self.ids().len(),
                old(self).wf(),
                forall|k: int| 0 <= k < j ==> self.ids()[k] != id,
            decreases n - j,
        {
            if self.channels[j].id() == id {
                assert(self.ids()[j as int] == id);
                let mut ch = self.channels.remove(j);
                ch.handle_event(ev);
                self.channels.insert(j, ch);
                proof {
                    assert(self.channels@ =~= old(self).channels@.update(j as int, ch));
                    assert(self.ids() =~= old(self).ids());
                    assert forall|i: int|
                        0 <= i < old(self).ids().len() && old(self).ids()[i] == id implies {
                        &&& self.chan_at(i).cid() == id
                        &&& self.chan_at(i).label_bytes() == old(self).chan_at(i).label_bytes()
                        &&& self.chan_at(i).log() == old(self).chan_at(i).log().push(ev@)
                    } by {
                        if i != j {
                            assert(old(self).ids()[i] != old(self).ids()[j as int]);
                        }
                    }
                }
                return true;
            }
            assert(self.ids()[j as int] != id);
            j = j + 1;
        }
        proof {
            assert(!old(self).live(id));
        }
        false
    }

    /// Delete the channel `id`: it leaves the registry, its wrapper and
    /// handler are released, and the delete counter records the release.
    /// Afterwards the identifier is no longer live, every other live
    /// channel is exactly one of the channels that were live before, and
    /// no identifier's liveness but `id`'s has changed.
    pub fn delete(&mut self, id: i32) -> (found: bool)
        requires
            old(self).wf(),
        ensures
            final(self).wf(),
            found == old(self).live(id),
            !final(self).live(id),
            forall|x: i32| x != id ==> final(self).live(x) == old(self).live(x),
            final(self).created_count() == old(self).created_count(),
            found ==> final(self).deleted_count() == old(self).deleted_count() + 1,
            !found ==> *final(self) == *old(self),
            found ==> exists|j: int|
                {
                    &&& 0 <= j < old(self).ids().len()
                    &&& #[trigger] old(self).ids()[j] == id
                    &&& final(self).ids() == old(self).ids().remove(j)
                    &&& forall|i: int|
                        0 <= i < j ==> final(self).chan_at(i) == old(self).chan_at(i)
                    &&& forall|i: int|
                        j <= i < final(self).ids().len() ==> final(self).chan_at(i)
                            == old(self).chan_at(i + 1)
                },
    {
        let n = self.channels.len();
        let mut j: usize = 0;
        while j < n
            invariant
                0 <= j <= n,
                *self == *old(self),
                n == self.ids().len(),
                old(self).wf(),
                forall|k: int| 0 <= k < j ==> self.ids()[k] != id,
            decreases n - j,
        {
            if self.channels[j].id() == id {
                assert(self.ids()[j as int] == id);
                let _ = self.channels.remove(j);
                self.deleted = self.deleted + 1;
                proof {
                    assert(self.ids() =~= old(self).ids().remove(j as int));
                    lemma_remove_liveness(old(self).ids(), j as int, id);
                    assert(old(self).ids()[j as int] == id);
                    assert(forall|i: int|
                        0 <= i < j ==> self.chan_at(i) == old(self).chan_at(i));
                    assert(forall|i: int|
                        j <= i < self.ids().len() ==> self.chan_at(i) == old(self).chan_at(
                            i + 1,
                        ));
                }
                return true;
            }
            assert(self.ids()[j as int] != id);
            j = j + 1;
        }
        proof {
            assert(!old(self).live(id));
        }
        false
    }

    /// How many create calls this session has served.
    pub fn created_calls(&self) -> (r: u64)
        ensures
            r as int == self.created_count(),
    {
        self.created
    }

    /// How many delete calls this session has served.
    pub fn deleted_calls(&self) -> (r: u64)
        ensures
            r as int == self.deleted_count(),
    {
        self.deleted
    }

    /// How many channels are live.
    pub fn live_count(&self) -> (r: usize)
        ensures
            r as int == self.ids().len(),
    {
        self.channels.len()
    }

    /// Send `msg` on the channel `id`: the transport receives exactly
    /// those bytes with their explicit length. Sending on a deleted (or
    /// never issued) identifier is a reported error, as is a payload too
    /// long for the signed length field.
    pub fn send(&self, id: i32, msg: &[u8]) -> (r: Result<OutFrame, SendError>)
        ensures
            match r {
                Ok(f) => self.live(id) && msg@.len() <= i32::MAX as int && f.bytes@ == msg@
                    && f.len as int == msg@.len(),
                Err(SendError::ChannelClosed) => !self.live(id),
                Err(SendError::MessageTooLong) => self.live(id) && msg@.len() > i32::MAX as int,
            },
    {
        if !self.contains(id) {
            return Err(SendError::ChannelClosed);
        }
        make_frame(msg)
    }
}

/// Removing position `j` from a sequence of pairwise distinct identifiers
/// removes exactly the identifier that stood there: the rest keep their
/// membership, the removed one loses it.
proof fn lemma_remove_liveness(ids: Seq<i32>, j: int, id: i32)
    requires
        0 <= j < ids.len(),
        ids[j] == id,
        forall|a: int, b: int| 0 <= a < b < ids.len() ==> ids[a] != ids[b],
    ensures
        !ids.remove(j).contains(id),
        forall|x: i32| x != id ==> ids.remove(j).contains(x) == ids.contains(x),
        forall|a: int, b: int|
            0 <= a < b < ids.remove(j).len() ==> ids.remove(j)[a] != ids.remove(j)[b],
{
    let r = ids.remove(j);
    assert forall|a: int, b: int| 0 <= a < b < r.len() implies r[a] != r[b] by {
        let a0 = if a < j { a } else { a + 1 };
        let b0 = if b < j { b } else { b + 1 };
        assert(r[a] == ids[a0] && r[b] == ids[b0]);
    }
    assert forall|i: int| 0 <= i < r.len() implies r[i] != id by {
        let i0 = if i < j { i } else { i + 1 };
        assert(r[i] == ids[i0]);
        assert(i0 != j);
    }
    assert forall|x: i32| x != id implies r.contains(x) == ids.contains(x) by {
        if ids.contains(x) {
            let i0 = choose|i0: int| 0 <= i0 < ids.len() && ids[i0] == x;
            let i = if i0 < j { i0 } else { i0 - 1 };
            assert(i0 != j);
            assert(r[i] == ids[i0]);
            assert(r.contains(x));
        }
        if r.contains(x) {
            let i = choose|i: int| 0 <= i < r.len() && r[i] == x;
            let i0 = if i < j { i } else { i + 1 };
            assert(r[i] == ids[i0]);
            assert(ids.contains(x));
        }
    }
}

/// No two live channels of a well-formed session share an identifier.
pub proof fn lemma_identifier_uniqueness<D: DataChannel>(s: Session<D>)
    requires
        s.wf(),
    ensures
        forall|i: int, j: int| 0 <= i < j < s.ids().len() ==> s.ids()[i] != s.ids()[j],
{
}

/// Ownership balances: every create call is matched by a delete call or a
/// still-live channel, so a session with no channel left has served
/// exactly as many deletes as creates — nothing leaked.
pub proof fn lemma_ownership_balance<D: DataChannel>(s: Session<D>)
    requires
        s.wf(),
    ensures
        s.created_count() == s.deleted_count() + s.ids().len(),
        s.ids().len() == 0 ==> s.created_count() == s.deleted_count(),
{
}

/// The identifier source is exhausted only after `i32::MAX` creations.
pub proof fn lemma_can_issue<D: DataChannel>(s: Session<D>)
    requires
        s.wf(),
    ensures
        s.can_issue() <==> s.created_count() < i32::MAX as int,
{
}

} // verus!
