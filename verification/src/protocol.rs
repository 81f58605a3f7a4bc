//! The control protocol's message types.
//!
//! A `Command` is an immutable client intent, constructed by the daemon
//! from a decoded request and consumed exactly once by the player. A
//! `Reply` is what a waiting client gets back. Both travel over the local
//! control socket as canonical JSON (see the codec module).

use vstd::prelude::*;

verus! {

/// The mathematical content of a [`Command`]: payload strings as character
/// sequences, track lists as sequences.
pub enum CommandView {
    Play,
    Pause,
    Toggle,
    Next,
    Prev,
    Stop,
    Clear,
    StatusReq,
    Add(usize),
    AddMany(Seq<usize>),
    AddNext(usize),
    AddSearch(Seq<char>),
    AddNextSearch(Seq<char>),
    Search(Seq<char>, bool, bool, bool, usize),
    Status(Seq<char>),
}

/// A user intent, as decoded from one control connection.
///
/// `Status` is internal-only: it carries the player's formatted status back
/// to the daemon. `AddSearch`, `AddNextSearch` and `Search` are resolved by
/// the daemon against the media catalog and never reach the player's queue
/// logic. `Search` carries the query, the three facet switches (artists,
/// albums, songs) and the page size.
#[derive(Debug, Clone, PartialEq, Eq)]
pub enum Command {
    Play,
    Pause,
    Toggle,
    Next,
    Prev,
    Stop,
    Clear,
    StatusReq,
    Add(usize),
    AddMany(Vec<usize>),
    AddNext(usize),
    AddSearch(String),
    AddNextSearch(String),
    Search(String, bool, bool, bool, usize),
    Status(String),
}

impl View for Command {
    type V = CommandView;

    open spec fn view(&self) -> CommandView {
        match self {
            Command::Play => CommandView::Play,
            Command::Pause => CommandView::Pause,
            Command::Toggle => CommandView::Toggle,
            Command::Next => CommandView::Next,
            Command::Prev => CommandView::Prev,
            Command::Stop => CommandView::Stop,
            Command::Clear => CommandView::Clear,
            Command::StatusReq => CommandView::StatusReq,
            Command::Add(n) => CommandView::Add(*n),
            Command::AddMany(v) => CommandView::AddMany(v@),
            Command::AddNext(n) => CommandView::AddNext(*n),
            Command::AddSearch(q) => CommandView::AddSearch(q@),
            Command::AddNextSearch(q) => CommandView::AddNextSearch(q@),
            Command::Search(q, ar, al, so, n) => CommandView::Search(q@, *ar, *al, *so, *n),
            Command::Status(s) => CommandView::Status(s@),
        }
    }
}

/// The mathematical content of a [`Reply`].
pub enum ReplyView {
    Search { albums: Seq<Seq<char>>, artists: Seq<Seq<char>>, songs: Seq<Seq<char>> },
    Other(Seq<char>),
    Empty,
}

/// What a waiting client gets back: rendered search results, free-form
/// text, or nothing. `Empty` is written `"None"` on the wire.
#[derive(Debug, Clone, PartialEq, Eq)]
pub enum Reply {
    Search { albums: Vec<String>, artists: Vec<String>, songs: Vec<String> },
    Other(String),
    Empty,
}

impl View for Reply {
    type V = ReplyView;

    open spec fn view(&self) -> ReplyView {
        match self {
            Reply::Search { albums, artists, songs } => ReplyView::Search {
                albums: albums@.map_values(|s: String| s@),
                artists: artists@.map_values(|s: String| s@),
                songs: songs@.map_values(|s: String| s@),
            },
            Reply::Other(s) => ReplyView::Other(s@),
            Reply::Empty => ReplyView::Empty,
        }
    }
}

} // verus!
