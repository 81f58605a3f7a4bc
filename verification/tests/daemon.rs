use subs::daemon::{add_search_reply, route, search_reply, Route};
use subs::player::{CmdAction, EngineState, Player};
use subs::protocol::{Command, Reply};

#[test]
fn routing_follows_the_contract() {
    assert_eq!(route(&Command::Stop), Route::StopDaemon);
    assert_eq!(route(&Command::StatusReq), Route::ToPlayerStatus);
    assert_eq!(route(&Command::AddSearch(String::from("q"))), Route::SearchAdd);
    assert_eq!(route(&Command::AddNextSearch(String::from("q"))), Route::SearchAddNext);
    assert_eq!(
        route(&Command::Search(String::from("q"), false, false, true, 20)),
        Route::SearchAll
    );
    assert_eq!(route(&Command::Play), Route::ToPlayer);
    assert_eq!(route(&Command::Pause), Route::ToPlayer);
    assert_eq!(route(&Command::Toggle), Route::ToPlayer);
    assert_eq!(route(&Command::Next), Route::ToPlayer);
    assert_eq!(route(&Command::Prev), Route::ToPlayer);
    assert_eq!(route(&Command::Add(1)), Route::ToPlayer);
    assert_eq!(route(&Command::AddMany(vec![1])), Route::ToPlayer);
    assert_eq!(route(&Command::AddNext(1)), Route::ToPlayer);
    assert_eq!(route(&Command::Clear), Route::ToPlayer);
    assert_eq!(route(&Command::Status(String::from("s"))), Route::ToPlayer);
}

#[test]
fn add_search_without_a_match_reports_and_leaves_the_queue_alone() {
    let (cmd, reply) = add_search_reply("nonexistent", None, false);
    assert_eq!(cmd, None);
    assert_eq!(reply, Reply::Other(String::from("Nothing found for \"nonexistent\"")));

    // No command was produced, so the player's queue cannot change.
    let mut p = Player::new();
    let len_before = p.queue_len();
    if let Some(c) = cmd {
        p.run_cmd(&c, EngineState::Other, 0);
    }
    assert_eq!(p.queue_len(), len_before);
}

#[test]
fn add_search_with_a_match_enqueues_it() {
    let (cmd, reply) = add_search_reply("smoke on the water", Some(1887), false);
    assert_eq!(cmd, Some(Command::Add(1887)));
    assert_eq!(reply, Reply::Other(String::new()));

    let mut p = Player::new();
    assert_eq!(p.run_cmd(&cmd.unwrap(), EngineState::Other, 0), CmdAction::Stay);
    assert_eq!(p.queue_len(), 1);
    assert_eq!(p.current_track(), Some(1887));
}

#[test]
fn add_next_search_inserts_after_the_cursor() {
    let (cmd, _) = add_search_reply("q", Some(4), true);
    assert_eq!(cmd, Some(Command::AddNext(4)));
}

#[test]
fn search_reply_carries_the_three_lists() {
    let r = search_reply(
        vec![String::from("al")],
        vec![String::from("ar1"), String::from("ar2")],
        vec![],
    );
    assert_eq!(
        r,
        Reply::Search {
            albums: vec![String::from("al")],
            artists: vec![String::from("ar1"), String::from("ar2")],
            songs: vec![],
        }
    );
}

#[test]
fn stop_route_reaches_the_player_as_quit() {
    // The daemon forwards Stop to the player before leaving its accept
    // loop; the player's handler leaves its own loop in turn. What remains
    // of the shutdown — removing the socket entry — is the shell's work.
    assert_eq!(route(&Command::Stop), Route::StopDaemon);
    let mut p = Player::new();
    assert_eq!(p.run_cmd(&Command::Stop, EngineState::Other, 0), CmdAction::Quit);
}
