use subs::collapse;
use subs::error::Error;
use subs::protocol::{Command, Reply};
use subs::subcmd;

#[test]
fn builders_produce_their_commands() {
    assert_eq!(subcmd::clear(), Command::Clear);
    assert_eq!(subcmd::next(), Command::Next);
    assert_eq!(subcmd::pause(), Command::Pause);
    assert_eq!(subcmd::play(), Command::Play);
    assert_eq!(subcmd::prev(), Command::Prev);
    assert_eq!(subcmd::toggle(), Command::Toggle);
    assert_eq!(subcmd::status(), Command::StatusReq);
    assert_eq!(
        subcmd::add(String::from("deep purple")),
        Command::AddSearch(String::from("deep purple"))
    );
    assert_eq!(
        subcmd::addnext(String::from("lazy")),
        Command::AddNextSearch(String::from("lazy"))
    );
}

#[test]
fn search_builder_defaults_to_songs() {
    assert_eq!(
        subcmd::search(String::from("q"), false, false, 20),
        Command::Search(String::from("q"), false, false, true, 20)
    );
    assert_eq!(
        subcmd::search(String::from("q"), true, false, 5),
        Command::Search(String::from("q"), true, false, false, 5)
    );
    assert_eq!(
        subcmd::search(String::from("q"), false, true, 5),
        Command::Search(String::from("q"), false, true, false, 5)
    );
}

#[test]
fn add_reply_text_is_the_result() {
    assert_eq!(
        subcmd::classify_add_reply(&Reply::Other(String::from("Added: Smoke on the Water"))),
        Ok(String::from("Added: Smoke on the Water"))
    );
}

#[test]
fn add_reply_nothing_found_is_the_response_error() {
    let text = String::from("Nothing found for \"nonexistent\"");
    assert_eq!(
        subcmd::classify_add_reply(&Reply::Other(text.clone())),
        Err(Error::Response(text))
    );
}

#[test]
fn add_reply_of_the_wrong_shape_is_refused() {
    assert_eq!(subcmd::classify_add_reply(&Reply::Empty), Err(Error::Protocol));
    assert_eq!(
        subcmd::classify_add_reply(&Reply::Search { albums: vec![], artists: vec![], songs: vec![] }),
        Err(Error::Protocol)
    );
}

#[test]
fn status_reply_text_is_relayed() {
    assert_eq!(
        subcmd::classify_status_reply(&Reply::Other(String::from("nothing to display"))),
        Ok(String::from("nothing to display"))
    );
    assert_eq!(subcmd::classify_status_reply(&Reply::Empty), Err(Error::Protocol));
}

#[test]
fn search_results_pick_the_requested_facet() {
    let reply = Reply::Search {
        albums: vec![String::from("al")],
        artists: vec![String::from("ar")],
        songs: vec![String::from("so")],
    };
    assert_eq!(subcmd::search_results(reply.clone(), true, false), Ok(vec![String::from("ar")]));
    assert_eq!(subcmd::search_results(reply.clone(), false, true), Ok(vec![String::from("al")]));
    assert_eq!(subcmd::search_results(reply, false, false), Ok(vec![String::from("so")]));
    assert_eq!(subcmd::search_results(Reply::Empty, false, false), Err(Error::Protocol));
}

#[test]
fn collapse_joins_words_with_leading_spaces() {
    assert_eq!(collapse(vec![]), "");
    assert_eq!(collapse(vec![String::from("deep")]), " deep");
    assert_eq!(
        collapse(vec![String::from("smoke"), String::from("on"), String::from("the")]),
        " smoke on the"
    );
}
