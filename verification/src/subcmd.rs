//! The client side of the control protocol: one request builder per
//! subcommand, and the interpretation of what the daemon writes back.
//! The socket round trip itself stays with the shell.

use vstd::prelude::*;

use crate::error::Error;
use crate::protocol::{Command, CommandView, Reply, ReplyView};
use crate::text;

verus! {

/// The prefix that marks an error-carrying text reply.
pub open spec fn nothing_prefix() -> Seq<char> {
    seq!['N', 'o', 't', 'h', 'i', 'n', 'g']
}

/// The request that empties the queue.
pub fn clear() -> (c: Command)
    ensures
        c@ == CommandView::Clear,
{
    Command::Clear
}

/// The request that skips to the next track.
pub fn next() -> (c: Command)
    ensures
        c@ == CommandView::Next,
{
    Command::Next
}

/// The request that suspends playback.
pub fn pause() -> (c: Command)
    ensures
        c@ == CommandView::Pause,
{
    Command::Pause
}

/// The request that starts playback of the current queue.
pub fn play() -> (c: Command)
    ensures
        c@ == CommandView::Play,
{
    Command::Play
}

/// The request that rewinds to the previous track.
pub fn prev() -> (c: Command)
    ensures
        c@ == CommandView::Prev,
{
    Command::Prev
}

/// The request that toggles between playing and paused.
pub fn toggle() -> (c: Command)
    ensures
        c@ == CommandView::Toggle,
{
    Command::Toggle
}

/// The request for the daemon's status line.
pub fn status() -> (c: Command)
    ensures
        c@ == CommandView::StatusReq,
{
    Command::StatusReq
}

/// The request that adds the best match for a query to the queue's end.
pub fn add(query: String) -> (c: Command)
    ensures
        c@ == CommandView::AddSearch(query@),
{
    Command::AddSearch(query)
}

/// The request that inserts the best match for a query after the current
/// track.
pub fn addnext(query: String) -> (c: Command)
    ensures
        c@ == CommandView::AddNextSearch(query@),
{
    Command::AddNextSearch(query)
}

/// The search request: when neither artists-only nor albums-only is
/// asked for, songs are searched.
pub fn search(query: String, only_artists: bool, only_albums: bool, number: usize) -> (c: Command)
    ensures
        c@ == CommandView::Search(
            query@,
            only_artists,
            only_albums,
            !(only_artists || only_albums),
            number,
        ),
{
    let only_songs = !(only_artists || only_albums);
    Command::Search(query, only_artists, only_albums, only_songs, number)
}

/// Reads an add-by-search reply: the daemon's text is the result, except
/// that a text opening with `Nothing` reports that the query matched no
/// track and comes back as the response error; a reply of any other
/// shape cannot answer this request.
pub fn classify_add_reply(r: &Reply) -> (res: Result<String, Error>)
    ensures
        match r@ {
            ReplyView::Other(t) => {
                if text::match_at(t, 0, nothing_prefix()) {
                    res matches Err(e) && e matches Error::Response(m) && m@ == t
                } else {
                    res matches Ok(m) && m@ == t
                }
            },
            _ => res == Err::<String, Error>(Error::Protocol),
        },
{
    match r {
        Reply::Other(t) => {
            if text::match_at_str(t.as_str(), 0, &['N', 'o', 't', 'h', 'i', 'n', 'g']) {
                Err(Error::Response(t.clone()))
            } else {
                Ok(t.clone())
            }
        },
        _ => Err(Error::Protocol),
    }
}

/// Reads a status reply: the daemon answers a status request with its
/// formatted status text; any other shape cannot answer it.
pub fn classify_status_reply(r: &Reply) -> (res: Result<String, Error>)
    ensures
        match r@ {
            ReplyView::Other(t) => res matches Ok(m) && m@ == t,
            _ => res == Err::<String, Error>(Error::Protocol),
        },
{
    match r {
        Reply::Other(t) => Ok(t.clone()),
        _ => Err(Error::Protocol),
    }
}

/// Picks the facet a search asked for out of a search reply: artists when
/// artists-only, albums when albums-only, songs otherwise; a reply of any
/// other shape cannot answer a search.
pub fn search_results(r: Reply, only_artists: bool, only_albums: bool) -> (res: Result<
    Vec<String>,
    Error,
>)
    ensures
        match r@ {
            ReplyView::Search { albums, artists, songs } => {
                res matches Ok(items) && items@.map_values(|s: String| s@) == (if only_artists {
                    artists
                } else if only_albums {
                    albums
                } else {
                    songs
                })
            },
            _ => res == Err::<Vec<String>, Error>(Error::Protocol),
        },
{
    match r {
        Reply::Search { albums, artists, songs } => {
            if only_artists {
                Ok(artists)
            } else if only_albums {
                Ok(albums)
            } else {
                Ok(songs)
            }
        },
        _ => Err(Error::Protocol),
    }
}

} // verus!
