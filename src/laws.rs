//! Properties of the delivery protocol that hold across its steps.
use crate::channel::{next_id, ChannelView, Progress, SendError};
use vstd::prelude::*;
use vstd::set_lib::lemma_set_empty_equivalency_len;

verus! {

/// A publish on a channel with no subscribers fails and changes nothing, so a
/// subscriber added after it starts from the id that the publish set.
pub proof fn lemma_no_receivers<T: Clone>(
    s: ChannelView<T>,
    value: T,
    mid: ChannelView<T>,
    r: Progress<Result<(), SendError>>,
    index: usize,
    post: ChannelView<T>,
)
    requires
        s.well_formed(),
        s.last_seen.len() == 0,
        s.send_step(value, mid, r),
        mid.subscribe_step(index, post),
    ensures
        r == Progress::<Result<(), SendError>>::Ready(Err(SendError)),
        mid == s,
        post.last_seen[index] == s.message_id,
{
}

/// A publish completes only when every live subscriber has consumed the
/// current message.
pub proof fn lemma_complete_only_when_caught_up<T: Clone>(
    s: ChannelView<T>,
    value: T,
    post: ChannelView<T>,
)
    requires
        s.well_formed(),
        s.send_step(value, post, Progress::Ready(Ok(()))),
    ensures
        forall|k: usize| #[trigger]
            s.last_seen.contains_key(k) ==> s.last_seen[k] == s.message_id,
{
}

/// A resumption of a publish hands every lagging subscriber that held no
/// value a clone of the published value, and keeps the values already held.
pub proof fn lemma_lagging_handed_the_value<T: Clone>(
    s: ChannelView<T>,
    value: T,
    post: ChannelView<T>,
    r: Progress<Result<(), SendError>>,
    k: usize,
)
    requires
        s.well_formed(),
        s.send_step(value, post, r),
        s.lagging().contains(k),
    ensures
        post.pending.contains_key(k),
        !s.pending.contains_key(k) ==> cloned(value, post.pending[k]),
        s.pending.contains_key(k) ==> post.pending[k] == s.pending[k],
{
    lemma_set_empty_equivalency_len(s.last_seen.dom());
}

/// A lagging subscriber catches up only by a receive that hands it exactly
/// the value that was pending for it.
pub proof fn lemma_catch_up_only_by_taking<T>(
    s: ChannelView<T>,
    k: usize,
    post: ChannelView<T>,
    r: Progress<Option<T>>,
)
    requires
        s.recv_step(k, post, r),
        s.lagging().contains(k),
        !post.lagging().contains(k),
    ensures
        s.pending.contains_key(k),
        r == Progress::Ready(Some(s.pending[k])),
        post.last_seen[k] == s.message_id,
{
}

/// A subscriber added while a message is current is not handed that
/// message, and lags (so is handed the next one) once a new publish begins.
pub proof fn lemma_late_subscriber<T: Clone>(
    s: ChannelView<T>,
    index: usize,
    joined: ChannelView<T>,
    value: T,
    sent: ChannelView<T>,
    r: Progress<Result<(), SendError>>,
    next: ChannelView<T>,
)
    requires
        s.well_formed(),
        s.subscribe_step(index, joined),
        joined.send_step(value, sent, r),
        joined.publish_step(next),
    ensures
        !sent.pending.contains_key(index),
        next.lagging().contains(index),
{
}

/// While a subscriber lags, every resumption of the publish stays pending and
/// leaves it lagging.
pub proof fn lemma_backpressure<T: Clone>(
    s: ChannelView<T>,
    a: usize,
    value: T,
    post: ChannelView<T>,
    r: Progress<Result<(), SendError>>,
)
    requires
        s.well_formed(),
        s.lagging().contains(a),
        s.send_step(value, post, r),
    ensures
        r == Progress::<Result<(), SendError>>::Pending,
        post.lagging().contains(a),
{
    lemma_set_empty_equivalency_len(s.last_seen.dom());
    assert(s.last_seen.dom().contains(a));
}

/// When a publish waits on one subscriber only, and another remains, that
/// subscriber's departure lets the next resumption of the publish complete.
pub proof fn lemma_departure_unblocks<T: Clone>(
    s: ChannelView<T>,
    a: usize,
    b: usize,
    mid: ChannelView<T>,
    value: T,
    post: ChannelView<T>,
    r: Progress<Result<(), SendError>>,
)
    requires
        s.well_formed(),
        s.last_seen.contains_key(b),
        a != b,
        s.lagging().subset_of(set![a]),
        s.remove_step(a, mid),
        mid.send_step(value, post, r),
    ensures
        r == Progress::<Result<(), SendError>>::Ready(Ok(())),
{
    lemma_set_empty_equivalency_len(mid.last_seen.dom());
    assert(mid.last_seen.dom().contains(b));
    assert forall|k: usize| #[trigger] mid.last_seen.contains_key(k) implies mid.last_seen[k]
        == mid.message_id by {
        if mid.last_seen[k] != mid.message_id {
            assert(s.lagging().contains(k));
        }
    }
}

/// Once the publisher is gone, a receive by a subscriber with no pending
/// value ends the stream, and leaves the channel so that the next receive
/// ends it too.
pub proof fn lemma_closed_stream_ends<T>(
    s: ChannelView<T>,
    k: usize,
    post: ChannelView<T>,
    r: Progress<Option<T>>,
)
    requires
        s.closed,
        !s.pending.contains_key(k),
        s.recv_step(k, post, r),
    ensures
        r == Progress::Ready(None::<T>),
        post.closed,
        !post.pending.contains_key(k),
{
}

/// Closing the channel leaves no subscriber waiting and no new value pending.
pub proof fn lemma_close_wakes_all<T>(s: ChannelView<T>, post: ChannelView<T>)
    requires
        s.close_step(post),
    ensures
        post.closed,
        post.waiting.is_empty(),
        post.pending == s.pending,
{
}

/// The message id never becomes `0`, and always changes, when a publish
/// begins.
pub proof fn lemma_next_id_nonzero(id: u64)
    ensures
        next_id(id) != 0,
        next_id(id) != id,
{
}

} // verus!
