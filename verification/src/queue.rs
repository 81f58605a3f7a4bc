//! The ordered, position-tracking playlist.
//!
//! A `Queue` owns an ordered sequence of track identifiers and a zero-based
//! `position` cursor. `position == length` is the "past the end, nothing
//! current" sentinel; every operation keeps `position` within
//! `0 ..= length`.

use vstd::prelude::*;

verus! {

/// The mathematical content of a [`Queue`]: the track list and the cursor.
pub struct QueueView {
    pub songs: Seq<usize>,
    pub position: nat,
}

/// The cursor never points past the end sentinel.
pub open spec fn queue_wf(v: QueueView) -> bool {
    v.position <= v.songs.len()
}

/// The track under the cursor, if the cursor is not past the end.
pub open spec fn current_of(v: QueueView) -> Option<usize> {
    if v.position < v.songs.len() {
        Some(v.songs[v.position as int])
    } else {
        None
    }
}

/// Where the cursor lands after one `next`: one step forward, stopping at
/// the end sentinel.
pub open spec fn next_of(v: QueueView) -> QueueView {
    QueueView {
        songs: v.songs,
        position: if v.position < v.songs.len() {
            (v.position + 1) as nat
        } else {
            v.position
        },
    }
}

/// Where the cursor lands after one `prev`: one step back, clamped at zero.
pub open spec fn prev_of(v: QueueView) -> QueueView {
    QueueView {
        songs: v.songs,
        position: if v.position > 0 {
            (v.position - 1) as nat
        } else {
            0
        },
    }
}

/// The cursor after `k` applications of `next`.
pub open spec fn iter_next(v: QueueView, k: nat) -> QueueView
    decreases k,
{
    if k == 0 {
        v
    } else {
        next_of(iter_next(v, (k - 1) as nat))
    }
}

/// An ordered playlist of track identifiers with a playback cursor.
#[derive(Debug)]
pub struct Queue {
    songs: Vec<usize>,
    position: usize,
}

impl View for Queue {
    type V = QueueView;

    closed spec fn view(&self) -> QueueView {
        QueueView { songs: self.songs@, position: self.position as nat }
    }
}

impl Queue {
    /// Whether the cursor invariant holds.
    pub open spec fn wf(&self) -> bool {
        queue_wf(self@)
    }

    /// A fresh, empty queue with the cursor at zero.
    pub fn new() -> (q: Queue)
        ensures
            q@.songs == Seq::<usize>::empty(),
            q@.position == 0,
            q.wf(),
    {
        Queue { songs: Vec::new(), position: 0 }
    }

    /// The cursor.
    pub fn position(&self) -> (p: usize)
        ensures
            p as nat == self@.position,
    {
        self.position
    }

    /// How many tracks the queue holds.
    pub fn len(&self) -> (n: usize)
        ensures
            n as nat == self@.songs.len(),
    {
        self.songs.len()
    }

    /// Whether the queue holds no tracks.
    pub fn is_empty(&self) -> (b: bool)
        ensures
            b == (self@.songs.len() == 0),
    {
        self.songs.len() == 0
    }

    /// Pushes a track to the end; the cursor does not move. Never fails.
    pub fn append(&mut self, song: usize)
        ensures
            final(self)@.songs == old(self)@.songs.push(song),
            final(self)@.position == old(self)@.position,
    {
        self.songs.push(song);
    }

    /// Pushes every given track to the end, in order; the cursor does not
    /// move.
    pub fn append_all(&mut self, songs: &Vec<usize>)
        ensures
            final(self)@.songs == old(self)@.songs + songs@,
            final(self)@.position == old(self)@.position,
    {
        let mut i: usize = 0;
        proof {
            assert(self@.songs =~= old(self)@.songs + songs@.subrange(0, 0));
        }
        while i < songs.len()
            invariant
                i <= songs.len(),
                self@.songs == old(self)@.songs + songs@.subrange(0, i as int),
                self@.position == old(self)@.position,
            decreases songs.len() - i,
        {
            self.songs.push(songs[i]);
            proof {
                assert(self@.songs =~= old(self)@.songs + songs@.subrange(0, i + 1));
            }
            i = i + 1;
        }
        proof {
            assert(songs@.subrange(0, songs@.len() as int) =~= songs@);
        }
    }

    /// Drops all tracks and resets the cursor to zero.
    pub fn clear(&mut self)
        ensures
            final(self)@.songs == Seq::<usize>::empty(),
            final(self)@.position == 0,
    {
        self.songs.clear();
        self.position = 0;
    }

    /// Inserts a track immediately after the cursor, or at the end when the
    /// cursor is past the end. The cursor does not move. Never fails.
    pub fn insert_next(&mut self, song: usize)
        requires
            old(self).wf(),
        ensures
            final(self).wf(),
            final(self)@.position == old(self)@.position,
            final(self)@.songs == (if old(self)@.position == old(self)@.songs.len() {
                old(self)@.songs.push(song)
            } else {
                old(self)@.songs.insert(old(self)@.position + 1int, song)
            }),
    {
        if self.position == self.songs.len() {
            self.songs.push(song);
        } else {
            self.songs.insert(self.position + 1, song);
        }
    }

    /// The track under the cursor; `None` when the cursor is past the end.
    pub fn current(&self) -> (r: Option<usize>)
        ensures
            r == current_of(self@),
    {
        if self.position < self.songs.len() {
            Some(self.songs[self.position])
        } else {
            None
        }
    }

    /// Whether at least one track exists beyond the cursor.
    pub fn has_next(&self) -> (b: bool)
        ensures
            b == (self@.position + 1 < self@.songs.len()),
    {
        self.songs.len() > 0 && self.position < self.songs.len() - 1
    }

    /// Advances the cursor by one, stopping at the end sentinel, and returns
    /// the new current track. The cursor is checked against the length
    /// before any indexing, so stepping off the final track yields `None`
    /// rather than an out-of-bounds read.
    pub fn next(&mut self) -> (r: Option<usize>)
        requires
            old(self).wf(),
        ensures
            final(self).wf(),
            final(self)@ == next_of(old(self)@),
            r == current_of(final(self)@),
    {
        if self.position < self.songs.len() {
            self.position = self.position + 1;
            self.current()
        } else {
            None
        }
    }

    /// Steps the cursor back by one, clamped at zero, and returns the
    /// current track. On a fresh queue the cursor does not move.
    pub fn prev(&mut self) -> (r: Option<usize>)
        requires
            old(self).wf(),
        ensures
            final(self).wf(),
            final(self)@ == prev_of(old(self)@),
            r == current_of(final(self)@),
    {
        if self.position > 0 {
            self.position = self.position - 1;
        }
        self.current()
    }

    /// Steps the cursor back by two, clamped at zero — the "restart the
    /// track before this one" rewind — and returns the current track.
    pub fn prev2(&mut self) -> (r: Option<usize>)
        requires
            old(self).wf(),
        ensures
            final(self).wf(),
            final(self)@ == prev_of(prev_of(old(self)@)),
            r == current_of(final(self)@),
    {
        let _ = self.prev();
        self.prev()
    }
}

/// `prev` never drives the cursor below zero, and on a queue whose cursor
/// already sits at zero it returns the current track with the queue
/// unchanged.
pub proof fn lemma_prev_clamps(v: QueueView)
    ensures
        prev_of(v).position >= 0,
        v.position == 0 ==> prev_of(v) == v,
{
    if v.position == 0 {
        assert(prev_of(v) =~= v);
    }
}

/// On any non-empty queue whose cursor is fresh — as after any run of
/// `append`s from `new`, which leave the cursor at zero — the current
/// track is the first track appended.
pub proof fn lemma_fresh_current_is_first(s: Seq<usize>)
    requires
        s.len() > 0,
    ensures
        current_of(QueueView { songs: s, position: 0 }) == Some(s[0]),
{
}

/// Playback enumerates the queue in insertion order, each track exactly
/// once. Starting from a fresh cursor, the track consumed by the `k`-th
/// advance — `current` for the first, then the value `next` returns — is
/// the `k`-th track appended, and every advance past the last track yields
/// `None`; no advance reads out of bounds.
pub proof fn lemma_playback_enumerates(s: Seq<usize>, k: nat)
    ensures
        iter_next(QueueView { songs: s, position: 0 }, k).songs == s,
        iter_next(QueueView { songs: s, position: 0 }, k).position
            == if k < s.len() { k } else { s.len() },
        current_of(iter_next(QueueView { songs: s, position: 0 }, k))
            == if k < s.len() { Some(s[k as int]) } else { None::<usize> },
    decreases k,
{
    if k > 0 {
        lemma_playback_enumerates(s, (k - 1) as nat);
    }
}

} // verus!
