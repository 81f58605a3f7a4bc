//! The playback state machine.
//!
//! A `Player` owns the queue and the session facts: whether an engine
//! session exists, whether playback is nominally running, and how many
//! seconds remain before the next scheduled action. Its main loop — run by
//! the shell around this library — blocks on the inbound channel with a
//! timeout of `song_rem` seconds, so that "time elapsed with no new
//! command" is itself an input event: a command arriving is handled by
//! [`Player::run_cmd`], the timeout expiring by [`Player::on_timeout`],
//! and the outcome of loading a track is reported back through
//! [`Player::track_started`] or [`Player::track_failed`]. Every engine or
//! catalog side effect is returned as an explicit action for the caller to
//! perform.

use vstd::prelude::*;

use crate::protocol::{Command, CommandView};
use crate::queue::{current_of, next_of, prev_of, Queue, QueueView};
use crate::text;

verus! {

/// The wait bound used when nothing is scheduled: long enough to mean
/// "wait indefinitely for the next command".
pub const IDLE_WAIT_SECS: u64 = 9999;

/// What the engine reports its session to be doing.
#[derive(Debug, Clone, Copy, PartialEq, Eq, Structural)]
pub enum EngineState {
    Playing,
    Paused,
    Other,
}

/// The one engine or channel side effect a command asks of the caller.
#[derive(Debug, Clone, Copy, PartialEq, Eq, Structural)]
pub enum CmdAction {
    /// Nothing to perform.
    Stay,
    /// Request the Playing state on the live engine session.
    EnginePlay,
    /// Request the Paused state on the live engine session.
    EnginePause,
    /// Compute the status text and send it back on the reply channel.
    SendStatus,
    /// Leave the player loop; the player is done.
    Quit,
}

/// What the caller must do after a wait timed out.
#[derive(Debug, Clone, Copy, PartialEq, Eq, Structural)]
pub enum TimeoutAction {
    /// Tear down any live engine session, resolve this track against the
    /// catalog, start a new session on its stream, and report back with
    /// `track_started` or `track_failed`.
    Load(usize),
    /// The queue is exhausted; keep waiting.
    Idle,
}

/// The mathematical content of a [`Player`].
pub struct PlayerView {
    pub queue: QueueView,
    pub playing: bool,
    pub has_pipe: bool,
    pub song_dur: u64,
    pub song_rem: u64,
}

/// Subtraction on wait bounds, clamped at zero so that a late elapsed
/// report can never wrap the remaining time around.
pub open spec fn remaining_after(dur: u64, elapsed: u64) -> u64 {
    if elapsed <= dur {
        (dur - elapsed) as u64
    } else {
        0
    }
}

/// The queue advance a timeout performs: step to the next track once a
/// session exists, otherwise stay on the current one (it has not been
/// handed to the engine yet).
pub open spec fn advance_of(p: PlayerView) -> QueueView {
    if p.has_pipe {
        next_of(p.queue)
    } else {
        p.queue
    }
}

/// The state after a command, paired with the action it asks of the
/// caller. `eng` and `elapsed` are the engine's reported state and play
/// position, read only where a session exists.
pub open spec fn cmd_step(
    p: PlayerView,
    c: CommandView,
    eng: EngineState,
    elapsed: u64,
) -> (PlayerView, CmdAction) {
    match c {
        CommandView::Add(n) => (
            PlayerView { queue: QueueView { songs: p.queue.songs.push(n), ..p.queue }, ..p },
            CmdAction::Stay,
        ),
        CommandView::AddMany(ns) => (
            PlayerView { queue: QueueView { songs: p.queue.songs + ns, ..p.queue }, ..p },
            CmdAction::Stay,
        ),
        CommandView::AddNext(n) => (
            PlayerView {
                queue: QueueView {
                    songs: if p.queue.position == p.queue.songs.len() {
                        p.queue.songs.push(n)
                    } else {
                        p.queue.songs.insert(p.queue.position + 1int, n)
                    },
                    ..p.queue
                },
                ..p
            },
            CmdAction::Stay,
        ),
        CommandView::Clear => (
            PlayerView { queue: QueueView { songs: Seq::empty(), position: 0 }, ..p },
            CmdAction::Stay,
        ),
        CommandView::Next => (PlayerView { song_rem: 0, ..p }, CmdAction::Stay),
        CommandView::Prev => (
            PlayerView { queue: prev_of(prev_of(p.queue)), song_rem: 0, ..p },
            CmdAction::Stay,
        ),
        CommandView::Play => {
            if p.queue.songs.len() == 0 {
                (p, CmdAction::Stay)
            } else if p.has_pipe {
                (PlayerView { playing: true, ..p }, CmdAction::EnginePlay)
            } else {
                (PlayerView { playing: true, song_rem: 0, ..p }, CmdAction::Stay)
            }
        },
        CommandView::Pause => {
            if p.queue.songs.len() == 0 {
                (p, CmdAction::Stay)
            } else if p.has_pipe {
                (
                    PlayerView {
                        playing: false,
                        song_rem: remaining_after(p.song_dur, elapsed),
                        ..p
                    },
                    CmdAction::EnginePause,
                )
            } else {
                (PlayerView { playing: false, song_rem: 0, ..p }, CmdAction::Stay)
            }
        },
        CommandView::Toggle => {
            if p.has_pipe {
                (
                    PlayerView {
                        playing: !p.playing,
                        song_rem: remaining_after(p.song_dur, elapsed),
                        ..p
                    },
                    match eng {
                        EngineState::Playing => CmdAction::EnginePause,
                        EngineState::Paused => CmdAction::EnginePlay,
                        EngineState::Other => CmdAction::Stay,
                    },
                )
            } else {
                (PlayerView { song_rem: 0, ..p }, CmdAction::Stay)
            }
        },
        CommandView::StatusReq => (p, CmdAction::SendStatus),
        CommandView::Stop => (p, CmdAction::Quit),
        CommandView::AddSearch(_) => (p, CmdAction::Stay),
        CommandView::AddNextSearch(_) => (p, CmdAction::Stay),
        CommandView::Search(_, _, _, _, _) => (p, CmdAction::Stay),
        CommandView::Status(_) => (p, CmdAction::Stay),
    }
}

/// The state after a timeout, paired with the action it asks of the
/// caller: load the track the queue advanced to, or go idle on the long
/// sentinel wait when the queue is exhausted.
pub open spec fn timeout_step(p: PlayerView) -> (PlayerView, TimeoutAction) {
    let q = advance_of(p);
    match current_of(q) {
        Some(n) => (PlayerView { queue: q, ..p }, TimeoutAction::Load(n)),
        None => (PlayerView { queue: q, song_rem: IDLE_WAIT_SECS, ..p }, TimeoutAction::Idle),
    }
}

/// The duration a loaded track plays for: the catalog's duration, or an
/// estimate from the stream's byte size when the catalog has none.
pub open spec fn effective_duration_of(duration: Option<u64>, size: u64) -> u64 {
    match duration {
        Some(d) => d,
        None => (size / 192 / 124) as u64,
    }
}

/// The duration a loaded track plays for, as an executable computation.
pub fn effective_duration(duration: Option<u64>, size: u64) -> (r: u64)
    ensures
        r == effective_duration_of(duration, size),
{
    match duration {
        Some(d) => d,
        None => size / 192 / 124,
    }
}

/// The single-threaded playback state machine: one queue, at most one
/// engine session, and the remaining-seconds bound for the next wait.
#[derive(Debug)]
pub struct Player {
    queue: Queue,
    playing: bool,
    has_pipe: bool,
    song_dur: u64,
    song_rem: u64,
}

impl View for Player {
    type V = PlayerView;

    closed spec fn view(&self) -> PlayerView {
        PlayerView {
            queue: self.queue@,
            playing: self.playing,
            has_pipe: self.has_pipe,
            song_dur: self.song_dur,
            song_rem: self.song_rem,
        }
    }
}

impl Player {
    /// The queue invariant holds.
    pub open spec fn wf(&self) -> bool {
        crate::queue::queue_wf(self@.queue)
    }

    /// A fresh player: empty queue, no engine session, not playing, an
    /// immediate wait bound.
    pub fn new() -> (p: Player)
        ensures
            p@.queue.songs == Seq::<usize>::empty(),
            p@.queue.position == 0,
            p@.playing == false,
            p@.has_pipe == false,
            p@.song_dur == 0,
            p@.song_rem == 0,
            p.wf(),
    {
        Player { queue: Queue::new(), playing: false, has_pipe: false, song_dur: 0, song_rem: 0 }
    }

    /// Whether playback is nominally running.
    pub fn playing(&self) -> (r: bool)
        ensures
            r == self@.playing,
    {
        self.playing
    }

    /// Whether a live engine session exists.
    pub fn has_pipe(&self) -> (r: bool)
        ensures
            r == self@.has_pipe,
    {
        self.has_pipe
    }

    /// The current track's duration in seconds.
    pub fn song_dur(&self) -> (r: u64)
        ensures
            r == self@.song_dur,
    {
        self.song_dur
    }

    /// The seconds remaining before the next scheduled action.
    pub fn song_rem(&self) -> (r: u64)
        ensures
            r == self@.song_rem,
    {
        self.song_rem
    }

    /// How many tracks the queue holds.
    pub fn queue_len(&self) -> (r: usize)
        ensures
            r as nat == self@.queue.songs.len(),
    {
        self.queue.len()
    }

    /// The queue cursor.
    pub fn queue_position(&self) -> (r: usize)
        ensures
            r as nat == self@.queue.position,
    {
        self.queue.position()
    }

    /// The track under the queue cursor.
    pub fn current_track(&self) -> (r: Option<usize>)
        ensures
            r == current_of(self@.queue),
    {
        self.queue.current()
    }

    /// How the next blocking wait is bounded: `song_rem` seconds while
    /// playback is running, else no bound (block until a command arrives).
    pub fn wait_secs(&self) -> (r: Option<u64>)
        ensures
            r == (if self@.playing {
                Some(self@.song_rem)
            } else {
                None::<u64>
            }),
    {
        if self.playing {
            Some(self.song_rem)
        } else {
            None
        }
    }

    /// Handles one command: a pure transition of the session state plus at
    /// most one action for the caller to perform. `eng` and `elapsed` are
    /// the engine session's reported state and play position in seconds;
    /// they are read only where a session exists, so a caller without one
    /// may pass anything.
    pub fn run_cmd(&mut self, cmd: &Command, eng: EngineState, elapsed: u64) -> (a: CmdAction)
        requires
            old(self).wf(),
        ensures
            final(self).wf(),
            (final(self)@, a) == cmd_step(old(self)@, cmd@, eng, elapsed),
    {
        match cmd {
            Command::Add(n) => {
                self.queue.append(*n);
                CmdAction::Stay
            },
            Command::AddMany(ns) => {
                self.queue.append_all(ns);
                CmdAction::Stay
            },
            Command::AddNext(n) => {
                self.queue.insert_next(*n);
                CmdAction::Stay
            },
            Command::Clear => {
                self.queue.clear();
                CmdAction::Stay
            },
            Command::Next => {
                self.song_rem = 0;
                CmdAction::Stay
            },
            Command::Prev => {
                let _ = self.queue.prev2();
                self.song_rem = 0;
                CmdAction::Stay
            },
            Command::Play => {
                if self.queue.is_empty() {
                    CmdAction::Stay
                } else if self.has_pipe {
                    self.playing = true;
                    CmdAction::EnginePlay
                } else {
                    self.song_rem = 0;
                    self.playing = true;
                    CmdAction::Stay
                }
            },
            Command::Pause => {
                if self.queue.is_empty() {
                    CmdAction::Stay
                } else if self.has_pipe {
                    self.song_rem = if elapsed <= self.song_dur {
                        self.song_dur - elapsed
                    } else {
                        0
                    };
                    self.playing = false;
                    CmdAction::EnginePause
                } else {
                    self.song_rem = 0;
                    self.playing = false;
                    CmdAction::Stay
                }
            },
            Command::Toggle => {
                if self.has_pipe {
                    self.song_rem = if elapsed <= self.song_dur {
                        self.song_dur - elapsed
                    } else {
                        0
                    };
                    self.playing = !self.playing;
                    match eng {
                        EngineState::Playing => CmdAction::EnginePause,
                        EngineState::Paused => CmdAction::EnginePlay,
                        EngineState::Other => CmdAction::Stay,
                    }
                } else {
                    self.song_rem = 0;
                    CmdAction::Stay
                }
            },
            Command::StatusReq => CmdAction::SendStatus,
            Command::Stop => CmdAction::Quit,
            Command::AddSearch(_) => CmdAction::Stay,
            Command::AddNextSearch(_) => CmdAction::Stay,
            Command::Search(_, _, _, _, _) => CmdAction::Stay,
            Command::Status(_) => CmdAction::Stay,
        }
    }

    /// Handles an expired wait: advances the queue — `next` once a session
    /// exists, the untouched current track before then — and asks the
    /// caller to load what it landed on, or to idle on the sentinel wait
    /// when the queue has nothing further.
    pub fn on_timeout(&mut self) -> (a: TimeoutAction)
        requires
            old(self).wf(),
        ensures
            final(self).wf(),
            (final(self)@, a) == timeout_step(old(self)@),
    {
        let nxt = if self.has_pipe {
            self.queue.next()
        } else {
            self.queue.current()
        };
        match nxt {
            Some(n) => TimeoutAction::Load(n),
            None => {
                self.song_rem = IDLE_WAIT_SECS;
                TimeoutAction::Idle
            },
        }
    }

    /// Records a successfully started engine session for the track a
    /// `Load` action named: the session exists and a full track's worth of
    /// seconds remains before the next scheduled advance.
    pub fn track_started(&mut self, duration: Option<u64>, size: u64)
        ensures
            final(self)@ == (PlayerView {
                has_pipe: true,
                song_dur: effective_duration_of(duration, size),
                song_rem: effective_duration_of(duration, size),
                ..old(self)@
            }),
    {
        self.has_pipe = true;
        self.song_dur = match duration {
            Some(d) => d,
            None => size / 192 / 124,
        };
        self.song_rem = self.song_dur;
    }

    /// Records a failed load — the catalog lookup or the engine start did
    /// not come through after the old session was torn down. Playback
    /// facts are kept; the player idles on the sentinel wait instead of
    /// crashing, and the next command or timeout takes it from there.
    pub fn track_failed(&mut self)
        ensures
            final(self)@ == (PlayerView { has_pipe: false, song_rem: IDLE_WAIT_SECS, ..old(self)@ }),
    {
        self.has_pipe = false;
        self.song_rem = IDLE_WAIT_SECS;
    }

    /// Renders the status reply: the fixed "nothing to display" text when
    /// no track is current or the caller has no facts for it, else the
    /// status line over the given now-playing facts and this player's own
    /// position, length and playing flag. The line reports "playing" only
    /// while a session exists and playback is running.
    pub fn status_text(
        &self,
        artist: &Option<String>,
        title: &str,
        prog: u64,
        dur: u64,
    ) -> (r: String)
        requires
            self.wf(),
        ensures
            current_of(self@.queue) is None ==> r@ == text::no_status_text(),
            current_of(self@.queue) is Some ==> r@ == text::status_line_of(
                match artist {
                    Some(a) => Some(a@),
                    None => None,
                },
                title@,
                self@.playing && self@.has_pipe,
                self@.queue.position + 1,
                self@.queue.songs.len(),
                prog,
                dur,
            ),
    {
        match self.queue.current() {
            Some(_) => {
                let pos1: u128 = (self.queue.position() as u128) + 1;
                let len: u128 = self.queue.len() as u128;
                text::status_line(
                    artist,
                    title,
                    self.playing && self.has_pipe,
                    pos1,
                    len,
                    prog,
                    dur,
                )
            },
            None => text::no_status(),
        }
    }
}

} // verus!
