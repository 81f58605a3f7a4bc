//! The daemon's routing of decoded commands.
//!
//! The daemon accepts one control connection at a time, decodes exactly
//! one command, routes it, and writes exactly one reply (or an empty
//! acknowledgement) before closing. The socket work stays with the shell;
//! what stands here is the decision of where each command goes and what
//! the reply is.

use vstd::prelude::*;

use crate::protocol::{Command, CommandView, Reply, ReplyView};
use crate::text;

verus! {

/// Where a decoded command goes and what kind of reply the client is owed.
#[derive(Debug, Clone, Copy, PartialEq, Eq, Structural)]
pub enum Route {
    /// Forward to the player; the reply is empty (fire-and-forget).
    ToPlayer,
    /// Forward to the player, block for exactly one status reply on the
    /// outbound channel, and relay its text.
    ToPlayerStatus,
    /// Resolve the query against the catalog for a single best match and
    /// append it to the queue ([`add_search_reply`] with `next == false`).
    SearchAdd,
    /// As `SearchAdd`, but the match is inserted right after the current
    /// track (`next == true`).
    SearchAddNext,
    /// Query the catalog across the requested facets and reply with the
    /// rendered result lists.
    SearchAll,
    /// Forward to the player so it drains, then leave the accept loop and
    /// remove the socket's filesystem entry.
    StopDaemon,
}

/// The routing decision for each command.
pub open spec fn route_of(c: CommandView) -> Route {
    match c {
        CommandView::Stop => Route::StopDaemon,
        CommandView::StatusReq => Route::ToPlayerStatus,
        CommandView::AddSearch(_) => Route::SearchAdd,
        CommandView::AddNextSearch(_) => Route::SearchAddNext,
        CommandView::Search(_, _, _, _, _) => Route::SearchAll,
        CommandView::Play => Route::ToPlayer,
        CommandView::Pause => Route::ToPlayer,
        CommandView::Toggle => Route::ToPlayer,
        CommandView::Next => Route::ToPlayer,
        CommandView::Prev => Route::ToPlayer,
        CommandView::Add(_) => Route::ToPlayer,
        CommandView::AddMany(_) => Route::ToPlayer,
        CommandView::AddNext(_) => Route::ToPlayer,
        CommandView::Clear => Route::ToPlayer,
        CommandView::Status(_) => Route::ToPlayer,
    }
}

/// Routes one decoded command.
pub fn route(cmd: &Command) -> (r: Route)
    ensures
        r == route_of(cmd@),
{
    match cmd {
        Command::Stop => Route::StopDaemon,
        Command::StatusReq => Route::ToPlayerStatus,
        Command::AddSearch(_) => Route::SearchAdd,
        Command::AddNextSearch(_) => Route::SearchAddNext,
        Command::Search(_, _, _, _, _) => Route::SearchAll,
        Command::Play => Route::ToPlayer,
        Command::Pause => Route::ToPlayer,
        Command::Toggle => Route::ToPlayer,
        Command::Next => Route::ToPlayer,
        Command::Prev => Route::ToPlayer,
        Command::Add(_) => Route::ToPlayer,
        Command::AddMany(_) => Route::ToPlayer,
        Command::AddNext(_) => Route::ToPlayer,
        Command::Clear => Route::ToPlayer,
        Command::Status(_) => Route::ToPlayer,
    }
}

/// The reply text when a search query matched nothing:
/// `Nothing found for "<query>"`.
pub open spec fn notfound_msg(q: Seq<char>) -> Seq<char> {
    seq![
        'N',
        'o',
        't',
        'h',
        'i',
        'n',
        'g',
        ' ',
        'f',
        'o',
        'u',
        'n',
        'd',
        ' ',
        'f',
        'o',
        'r',
        ' ',
        '"',
    ] + q + seq!['"']
}

/// What an add-by-search command does once the catalog has answered:
/// the matched track becomes a queue command for the player — appended,
/// or inserted next when `next` holds — and the client gets an empty
/// text reply; with no match the queue is left alone and the client is
/// told that nothing was found for its query.
pub fn add_search_reply(query: &str, found: Option<usize>, next: bool) -> (r: (
    Option<Command>,
    Reply,
))
    ensures
        match found {
            Some(id) => r.0 == Some(if next {
                Command::AddNext(id)
            } else {
                Command::Add(id)
            }) && r.1@ == ReplyView::Other(Seq::<char>::empty()),
            None => r.0 is None && r.1@ == ReplyView::Other(notfound_msg(query@)),
        },
{
    match found {
        Some(id) => {
            let cmd = if next {
                Command::AddNext(id)
            } else {
                Command::Add(id)
            };
            (Some(cmd), Reply::Other(String::new()))
        },
        None => {
            let mut msg = String::new();
            text::push_char(&mut msg, 'N');
            text::push_char(&mut msg, 'o');
            text::push_char(&mut msg, 't');
            text::push_char(&mut msg, 'h');
            text::push_char(&mut msg, 'i');
            text::push_char(&mut msg, 'n');
            text::push_char(&mut msg, 'g');
            text::push_char(&mut msg, ' ');
            text::push_char(&mut msg, 'f');
            text::push_char(&mut msg, 'o');
            text::push_char(&mut msg, 'u');
            text::push_char(&mut msg, 'n');
            text::push_char(&mut msg, 'd');
            text::push_char(&mut msg, ' ');
            text::push_char(&mut msg, 'f');
            text::push_char(&mut msg, 'o');
            text::push_char(&mut msg, 'r');
            text::push_char(&mut msg, ' ');
            text::push_char(&mut msg, '"');
            msg.append(query);
            text::push_char(&mut msg, '"');
            proof {
                assert(msg@ =~= notfound_msg(query@));
            }
            (None, Reply::Other(msg))
        },
    }
}

/// Assembles the search reply from the rendered facet lists.
pub fn search_reply(albums: Vec<String>, artists: Vec<String>, songs: Vec<String>) -> (r: Reply)
    ensures
        r@ == (ReplyView::Search {
            albums: albums@.map_values(|s: String| s@),
            artists: artists@.map_values(|s: String| s@),
            songs: songs@.map_values(|s: String| s@),
        }),
{
    Reply::Search { albums, artists, songs }
}

} // verus!
