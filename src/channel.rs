//! The shared state of a broadcast channel and the steps of its protocol.
use crate::slots::{
    slab_entries, slab_get, slab_insert, slab_keys, slab_len, slab_new, slab_set, slab_try_remove,
};
use slab::Slab;
use std::collections::HashMap;
use std::task::Waker;
use vstd::prelude::*;

verus! {

broadcast use vstd::std_specs::hash::group_hash_axioms;

/// Error of a publish on a channel that has no subscribers.
#[derive(Clone, Copy, Debug, PartialEq, Eq)]
#[non_exhaustive]
pub struct SendError;

impl SendError {
    /// The error's message.
    pub fn message(&self) -> (r: &'static str)
        ensures
            r@ == "no receivers to broadcast channel"@,
    {
        "no receivers to broadcast channel"
    }
}

/// Outcome of one resumption of a suspendable operation.
#[derive(Debug, PartialEq, Eq)]
pub enum Progress<R> {
    /// The operation is finished, with this result.
    Ready(R),
    /// The operation waits to be woken and resumed.
    Pending,
}

/// The id that follows `id`: one more, wrapping, with `0` skipped.
pub open spec fn next_id(id: u64) -> u64 {
    if id == u64::MAX {
        1
    } else {
        (id + 1) as u64
    }
}

/// The id of the message published after the one with id `id`.
pub fn next_message_id(id: u64) -> (r: u64)
    ensures
        r == next_id(id),
{
    let n = id.wrapping_add(1);
    if n == 0 {
        1
    } else {
        n
    }
}

/// The abstract state of a channel.
pub struct ChannelView<T> {
    /// Id of the message being (or last) published; `0` before any publish.
    pub message_id: u64,
    /// The publisher is gone.
    pub closed: bool,
    /// The publisher's suspension handle is registered.
    pub sender_waiting: bool,
    /// Each live subscriber's stable index, with the id it last consumed.
    pub last_seen: Map<usize, u64>,
    /// The subscribers whose suspension handle is registered.
    pub waiting: Set<usize>,
    /// Values handed to subscribers and not yet taken.
    pub pending: Map<usize, T>,
    /// Every id that a publish has assigned so far.
    pub issued: Set<u64>,
}

impl<T> ChannelView<T> {
    /// Records are finite in number; handles and pending values belong to
    /// live subscribers only; the id `0` is never assigned, and is current
    /// only before the first publish; each last seen id is `0` or assigned.
    pub open spec fn well_formed(self) -> bool {
        &&& self.last_seen.dom().finite()
        &&& !self.issued.contains(0)
        &&& self.message_id == 0 ==> self.issued.is_empty()
        &&& self.message_id != 0 ==> self.issued.contains(self.message_id)
        &&& forall|k: usize| #[trigger]
            self.last_seen.contains_key(k) ==> self.last_seen[k] == 0 || self.issued.contains(
                self.last_seen[k],
            )
        &&& self.waiting.subset_of(self.last_seen.dom())
        &&& self.pending.dom().subset_of(self.last_seen.dom())
    }

    /// The subscribers that have not consumed the current message.
    pub open spec fn lagging(self) -> Set<usize> {
        self.last_seen.dom().filter(|k: usize| self.last_seen[k] != self.message_id)
    }

    /// Every live subscriber has consumed the current message.
    pub open spec fn all_caught_up(self) -> bool {
        forall|k: usize| #[trigger]
            self.last_seen.contains_key(k) ==> self.last_seen[k] == self.message_id
    }
}

impl<T> ChannelView<T> {
    /// One resumption of a receive by subscriber `index`, from `self` to
    /// `post`, with result `r`. A pending value is taken and the subscriber
    /// catches up; else a closed channel ends the stream; else the
    /// subscriber's handle is registered and it waits.
    pub open spec fn recv_step(self, index: usize, post: Self, r: Progress<Option<T>>) -> bool {
        if !self.last_seen.contains_key(index) {
            post == self && r == Progress::Ready(None::<T>)
        } else if self.pending.contains_key(index) {
            &&& post == (ChannelView {
                last_seen: self.last_seen.insert(index, self.message_id),
                pending: self.pending.remove(index),
                ..self
            })
            &&& r == Progress::Ready(Some(self.pending[index]))
        } else if self.closed {
            post == (ChannelView { waiting: self.waiting.remove(index), ..self }) && r
                == Progress::Ready(None::<T>)
        } else {
            post == (ChannelView { waiting: self.waiting.insert(index), ..self }) && r
                == Progress::<Option<T>>::Pending
        }
    }

    /// A subscriber is added under the vacant index `index`, counting as
    /// caught up with the current message.
    pub open spec fn subscribe_step(self, index: usize, post: Self) -> bool {
        &&& !self.last_seen.contains_key(index)
        &&& post == (ChannelView {
            last_seen: self.last_seen.insert(index, self.message_id),
            ..self
        })
    }

    /// A new publish begins: the message id advances.
    pub open spec fn publish_step(self, post: Self) -> bool {
        post == (ChannelView {
            message_id: next_id(self.message_id),
            issued: self.issued.insert(next_id(self.message_id)),
            ..self
        })
    }

    /// A receive by subscriber `index` is abandoned: its pending value, if
    /// any, is discarded.
    pub open spec fn cancel_step(self, index: usize, post: Self) -> bool {
        post == (ChannelView { pending: self.pending.remove(index), ..self })
    }

    /// Subscriber `index` departs: its record, handle and pending value go,
    /// and the publisher's handle is taken to be woken.
    pub open spec fn remove_step(self, index: usize, post: Self) -> bool {
        post == (ChannelView {
            sender_waiting: false,
            last_seen: self.last_seen.remove(index),
            waiting: self.waiting.remove(index),
            pending: self.pending.remove(index),
            ..self
        })
    }

    /// The publisher departs: the channel is closed and every subscriber's
    /// handle is taken to be woken.
    pub open spec fn close_step(self, post: Self) -> bool {
        post == (ChannelView { closed: true, waiting: Set::empty(), ..self })
    }
}

impl<T: Clone> ChannelView<T> {
    /// One resumption of a publish of `value`, from `self` to `post`, with
    /// result `r`. With no subscriber it fails and changes nothing. Otherwise
    /// the publisher's handle is registered, each lagging subscriber with no
    /// pending value is handed a clone of `value`, and the publish completes
    /// exactly when no subscriber lags.
    pub open spec fn send_step(
        self,
        value: T,
        post: Self,
        r: Progress<Result<(), SendError>>,
    ) -> bool {
        if self.last_seen.len() == 0 {
            post == self && r == Progress::<Result<(), SendError>>::Ready(Err(SendError))
        } else {
            &&& post.message_id == self.message_id
            &&& post.closed == self.closed
            &&& post.sender_waiting
            &&& post.last_seen == self.last_seen
            &&& post.waiting == self.waiting
            &&& post.pending.dom() == self.pending.dom().union(self.lagging())
            &&& forall|k: usize| #[trigger]
                self.pending.contains_key(k) ==> post.pending[k] == self.pending[k]
            &&& forall|k: usize| #[trigger]
                post.pending.contains_key(k) && !self.pending.contains_key(k) ==> cloned(
                    value,
                    post.pending[k],
                )
            &&& r == if self.all_caught_up() {
                Progress::<Result<(), SendError>>::Ready(Ok(()))
            } else {
                Progress::Pending
            }
        }
    }
}

/// The state that a publisher and its subscribers share.
pub struct Shared<T> {
    id: u64,
    sender: Option<Waker>,
    closed: bool,
    receivers: Slab<u64>,
    wakers: HashMap<usize, Waker>,
    bufs: HashMap<usize, T>,
    issued: Ghost<Set<u64>>,
}

impl<T> View for Shared<T> {
    type V = ChannelView<T>;

    closed spec fn view(&self) -> ChannelView<T> {
        ChannelView {
            message_id: self.id,
            closed: self.closed,
            sender_waiting: self.sender.is_some(),
            last_seen: slab_entries(self.receivers),
            waiting: self.wakers@.dom(),
            pending: self.bufs@,
            issued: self.issued@,
        }
    }
}

impl<T> Shared<T> {
    /// The state's invariant, which every step preserves.
    pub open spec fn wf(&self) -> bool {
        self@.well_formed()
    }

    /// A channel with no subscribers and no message published yet.
    pub fn new() -> (r: Self)
        ensures
            r.wf(),
            r@ == (ChannelView::<T> {
                message_id: 0,
                closed: false,
                sender_waiting: false,
                last_seen: Map::empty(),
                waiting: Set::empty(),
                pending: Map::empty(),
                issued: Set::empty(),
            }),
    {
        let r = Shared {
            id: 0,
            sender: None,
            closed: false,
            receivers: slab_new(),
            wakers: HashMap::new(),
            bufs: HashMap::new(),
            issued: Ghost(Set::empty()),
        };
        assert(r.wakers@.dom() =~= Set::empty());
        assert(slab_entries(r.receivers) =~= Map::empty());
        r
    }

    /// The number of live subscribers.
    pub fn subscribers(&self) -> (r: usize)
        ensures
            r == self@.last_seen.len(),
    {
        slab_len(&self.receivers)
    }

    /// Adds a subscriber record that counts as caught up with the current
    /// message, and returns its stable index.
    pub fn new_receiver(&mut self) -> (r: usize)
        requires
            old(self).wf(),
            old(self)@.last_seen.len() < isize::MAX / 64,
        ensures
            final(self).wf(),
            old(self)@.subscribe_step(r, final(self)@),
    {
        slab_insert(&mut self.receivers, self.id)
    }

    /// Starts the publish of a new message: the message id advances.
    pub fn next_message(&mut self)
        requires
            old(self).wf(),
        ensures
            final(self).wf(),
            old(self)@.publish_step(final(self)@),
    {
        self.id = next_message_id(self.id);
        self.issued = Ghost(self.issued@.insert(self.id));
    }
}

impl<T> Shared<T> {
    /// Resumes a receive by subscriber `index`, on behalf of the task that
    /// `waker` wakes.
    pub fn poll_recv(&mut self, index: usize, waker: &Waker) -> (r: Progress<Option<T>>)
        requires
            old(self).wf(),
        ensures
            final(self).wf(),
            old(self)@.recv_step(index, final(self)@, r),
    {
        if slab_get(&self.receivers, index).is_none() {
            return Progress::Ready(None);
        }
        match self.bufs.remove(&index) {
            Some(value) => {
                slab_set(&mut self.receivers, index, self.id);
                match &self.sender {
                    Some(w) => w.wake_by_ref(),
                    None => {},
                }
                return Progress::Ready(Some(value));
            },
            None => {},
        }
        assert(self@.pending =~= old(self)@.pending);
        if self.closed {
            self.wakers.remove(&index);
            assert(self@.waiting =~= old(self)@.waiting.remove(index));
            return Progress::Ready(None);
        }
        let register = match self.wakers.get(&index) {
            Some(w) => !w.will_wake(waker),
            None => true,
        };
        if register {
            self.wakers.insert(index, waker.clone());
        }
        match &self.sender {
            Some(w) => w.wake_by_ref(),
            None => {},
        }
        assert(self@.waiting =~= old(self)@.waiting.insert(index));
        Progress::Pending
    }

    /// A receive by subscriber `index` is abandoned: the value handed to it,
    /// if any, is discarded, and its last seen id stays as it was.
    pub fn cancel_recv(&mut self, index: usize)
        requires
            old(self).wf(),
        ensures
            final(self).wf(),
            old(self)@.cancel_step(index, final(self)@),
    {
        self.bufs.remove(&index);
    }

    /// Subscriber `index` departs, and the publisher is woken so that a
    /// publish waiting only on it can complete.
    pub fn remove_receiver(&mut self, index: usize)
        requires
            old(self).wf(),
        ensures
            final(self).wf(),
            old(self)@.remove_step(index, final(self)@),
    {
        slab_try_remove(&mut self.receivers, index);
        self.bufs.remove(&index);
        self.wakers.remove(&index);
        match self.sender.take() {
            Some(w) => w.wake_by_ref(),
            None => {},
        }
    }

    /// The publisher departs: every waiting subscriber is woken and will
    /// find the stream ended.
    pub fn close(&mut self)
        requires
            old(self).wf(),
        ensures
            final(self).wf(),
            old(self)@.close_step(final(self)@),
    {
        self.closed = true;
        let keys = slab_keys(&self.receivers);
        let ghost pre = self@;
        let mut i: usize = 0;
        while i < keys.len()
            invariant
                pre.well_formed(),
                self.wf(),
                0 <= i <= keys@.len(),
                forall|k: usize| keys@.contains(k) <==> pre.last_seen.contains_key(k),
                self@ == (ChannelView { waiting: self@.waiting, ..pre }),
                self@.waiting.subset_of(pre.waiting),
                forall|j: int| 0 <= j < i ==> !self@.waiting.contains(#[trigger] keys@[j]),
            decreases keys@.len() - i,
        {
            match self.wakers.remove(&keys[i]) {
                Some(w) => w.wake_by_ref(),
                None => {},
            }
            i += 1;
        }
        proof {
            assert forall|k: usize| !self@.waiting.contains(k) by {
                if self@.waiting.contains(k) {
                    assert(keys@.contains(k));
                    let j = choose|j: int| 0 <= j < keys@.len() && keys@[j] == k;
                    assert(!self@.waiting.contains(keys@[j]));
                }
            }
            assert(self@.waiting =~= Set::empty());
        }
    }
}

impl<T: Clone> Shared<T> {
    /// Resumes the publish of `value` as the current message, on behalf of
    /// the task that `waker` wakes.
    pub fn poll_send(&mut self, value: &T, waker: &Waker) -> (r: Progress<Result<(), SendError>>)
        requires
            old(self).wf(),
        ensures
            final(self).wf(),
            old(self)@.send_step(*value, final(self)@, r),
    {
        if slab_len(&self.receivers) == 0 {
            return Progress::Ready(Err(SendError));
        }
        let register = match &self.sender {
            Some(w) => !w.will_wake(waker),
            None => true,
        };
        if register {
            self.sender = Some(waker.clone());
        }
        let keys = slab_keys(&self.receivers);
        let ghost pre = self@;
        let mut delivered = true;
        let mut i: usize = 0;
        while i < keys.len()
            invariant
                pre.well_formed(),
                self.wf(),
                0 <= i <= keys@.len(),
                keys@.no_duplicates(),
                forall|k: usize| keys@.contains(k) <==> pre.last_seen.contains_key(k),
                self@.message_id == pre.message_id,
                self@.closed == pre.closed,
                self@.sender_waiting,
                self@.last_seen == pre.last_seen,
                self@.waiting == pre.waiting,
                pre.pending.dom().subset_of(self@.pending.dom()),
                delivered == (forall|j: int|
                    0 <= j < i ==> #[trigger] pre.last_seen[keys@[j]] == pre.message_id),
                forall|j: int|
                    0 <= j < i && #[trigger] pre.last_seen[keys@[j]] != pre.message_id
                        ==> self@.pending.contains_key(keys@[j]),
                forall|k: usize| #[trigger]
                    self@.pending.contains_key(k) ==> pre.pending.contains_key(k)
                        || pre.lagging().contains(k),
                forall|k: usize| #[trigger]
                    pre.pending.contains_key(k) ==> self@.pending[k] == pre.pending[k],
                forall|k: usize| #[trigger]
                    self@.pending.contains_key(k) && !pre.pending.contains_key(k) ==> cloned(
                        *value,
                        self@.pending[k],
                    ),
            decreases keys@.len() - i,
        {
            let k = keys[i];
            assert(keys@.contains(k));
            let seen = slab_get(&self.receivers, k);
            // Every listed key is occupied, so the second arm is never taken.
            let seen = match seen {
                Some(id) => id,
                None => self.id,
            };
            if seen != self.id {
                delivered = false;
                if !self.bufs.contains_key(&k) {
                    self.bufs.insert(k, value.clone());
                    match self.wakers.get(&k) {
                        Some(w) => w.wake_by_ref(),
                        None => {},
                    }
                }
            }
            i += 1;
        }
        proof {
            assert forall|k: usize| pre.last_seen.contains_key(k) implies pre.last_seen[k]
                == pre.message_id || self@.pending.contains_key(k) by {
                assert(keys@.contains(k));
                let j = choose|j: int| 0 <= j < keys@.len() && keys@[j] == k;
                assert(pre.last_seen[keys@[j]] == pre.message_id || self@.pending.contains_key(
                    keys@[j],
                ));
            }
            assert(self@.pending.dom() =~= pre.pending.dom().union(pre.lagging()));
            if delivered {
                assert forall|k: usize| #[trigger]
                    pre.last_seen.contains_key(k) implies pre.last_seen[k] == pre.message_id by {
                    assert(keys@.contains(k));
                    let j = choose|j: int| 0 <= j < keys@.len() && keys@[j] == k;
                    assert(pre.last_seen[keys@[j]] == pre.message_id);
                }
            } else {
                let j = choose|j: int|
                    0 <= j < keys@.len() && #[trigger] pre.last_seen[keys@[j]] != pre.message_id;
                assert(pre.last_seen.contains_key(keys@[j]));
            }
        }
        if delivered {
            Progress::Ready(Ok(()))
        } else {
            Progress::Pending
        }
    }
}

} // verus!
