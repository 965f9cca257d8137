//! Short notes in the corner of the window that fade out by themselves.
//!
//! Times are nanoseconds on one clock that never runs backwards.
use vstd::prelude::*;

verus! {

/// The last part of a note's life, over which it fades out.
pub const FADE_NANOS: u64 = 800_000_000;

/// A note.
#[derive(Clone, Debug)]
pub struct Toast {
    pub heading: String,
    pub lines: Vec<String>,
    /// When the note was made.
    pub spawned_at: u64,
    /// How long it lives.
    pub ttl: u64,
}

/// How long ago the note was made.
pub open spec fn age(toast: Toast, now: u64) -> u64 {
    if now > toast.spawned_at {
        (now - toast.spawned_at) as u64
    } else {
        0
    }
}

/// Whether the note's time is over.
pub open spec fn is_expired(toast: Toast, now: u64) -> bool {
    age(toast, now) >= toast.ttl
}

/// How visible the note is, out of `FADE_NANOS`: fully, until its last part begins; then by what
/// is left of it.
pub open spec fn visibility(toast: Toast, now: u64) -> u64 {
    if is_expired(toast, now) {
        0
    } else if toast.ttl - age(toast, now) < FADE_NANOS {
        (toast.ttl - age(toast, now)) as u64
    } else {
        FADE_NANOS
    }
}

impl Toast {
    fn elapsed(&self, now: u64) -> (r: u64)
        ensures
            r == age(*self, now),
    {
        if now > self.spawned_at {
            now - self.spawned_at
        } else {
            0
        }
    }

    /// How visible the note is, out of `FADE_NANOS`.
    pub fn alpha(&self, now: u64) -> (r: u64)
        ensures
            r == visibility(*self, now),
            r <= FADE_NANOS,
    {
        let elapsed: u64 = self.elapsed(now);
        if elapsed >= self.ttl {
            return 0;
        }
        let remaining: u64 = self.ttl - elapsed;
        if remaining < FADE_NANOS {
            remaining
        } else {
            FADE_NANOS
        }
    }

    /// Whether the note's time is over.
    pub fn expired(&self, now: u64) -> (r: bool)
        ensures
            r == is_expired(*self, now),
    {
        self.elapsed(now) >= self.ttl
    }
}

/// Puts a note behind the others.
pub fn push(queue: &mut Vec<Toast>, heading: String, lines: Vec<String>, ttl: u64, now: u64)
    ensures
        final(queue)@ == old(queue)@.push(Toast { heading, lines, spawned_at: now, ttl }),
{
    queue.push(Toast { heading, lines, spawned_at: now, ttl });
}

/// The notes whose time is not over, in their order.
pub open spec fn alive(queue: Seq<Toast>, now: u64) -> Seq<Toast>
    decreases queue.len(),
{
    if queue.len() == 0 {
        Seq::empty()
    } else if is_expired(queue.last(), now) {
        alive(queue.drop_last(), now)
    } else {
        alive(queue.drop_last(), now).push(queue.last())
    }
}

/// Drops the notes whose time is over. The result says whether any is left to draw.
pub fn drop_expired(queue: Vec<Toast>, now: u64) -> (r: Vec<Toast>)
    ensures
        r@ == alive(queue@, now),
{
    let ghost all = queue@;
    let mut r: Vec<Toast> = Vec::new();
    assert(all.take(0) =~= Seq::<Toast>::empty());
    for toast in it: queue
        invariant
            it.seq() == all,
            r@ == alive(all.take(it.index()), now),
    {
        let ghost i = it.index();
        assert(all.take(i + 1).drop_last() =~= all.take(i));
        assert(all.take(i + 1).last() == all[i]);
        if !toast.expired(now) {
            r.push(toast);
        }
    }
    assert(all.take(all.len() as int) =~= all);
    r
}

/// A note that is drawn is visible, and none that is dropped is.
pub proof fn visible_until_expired(toast: Toast, now: u64)
    ensures
        is_expired(toast, now) <==> visibility(toast, now) == 0,
{
}

/// A note never becomes more visible as time goes on, and never comes back.
pub proof fn notes_only_fade(toast: Toast, now: u64, later: u64)
    requires
        now <= later,
    ensures
        visibility(toast, later) <= visibility(toast, now),
        is_expired(toast, now) ==> is_expired(toast, later),
{
}

/// Every note that stays had not expired, and dropping again changes nothing.
pub proof fn dropping_twice_is_dropping_once(queue: Seq<Toast>, now: u64)
    ensures
        alive(alive(queue, now), now) == alive(queue, now),
        forall|i: int| 0 <= i < alive(queue, now).len() ==> !is_expired(
            #[trigger] alive(queue, now)[i],
            now,
        ),
    decreases queue.len(),
{
    if queue.len() > 0 {
        let front = queue.drop_last();
        dropping_twice_is_dropping_once(front, now);
        let kept = alive(front, now);
        if !is_expired(queue.last(), now) {
            assert(kept.push(queue.last()).drop_last() =~= kept);
        }
    }
}

/// The notes that stay are those whose time is not over, in their order: a note lives from when it
/// was made until its lifetime has passed.
pub proof fn living_notes_stay(queue: Seq<Toast>, now: u64)
    ensures
        alive(queue, now) == queue.filter(
            |toast: Toast| toast.ttl > 0 && now < toast.spawned_at + toast.ttl,
        ),
    decreases queue.len(),
{
    reveal(Seq::filter);
    if queue.len() > 0 {
        living_notes_stay(queue.drop_last(), now);
    }
}

/// A note is shown in full until the last 800 milliseconds of its life, and from then on in
/// proportion to what is left of it.
pub proof fn notes_fade_at_their_end(toast: Toast, now: u64)
    requires
        toast.spawned_at <= now,
    ensures
        now + 800_000_000 <= toast.spawned_at + toast.ttl ==> visibility(toast, now) == 800_000_000,
        now <= toast.spawned_at + toast.ttl < now + 800_000_000 ==> visibility(toast, now)
            == toast.spawned_at + toast.ttl - now,
        now > toast.spawned_at + toast.ttl ==> visibility(toast, now) == 0,
{
}

} // verus!
