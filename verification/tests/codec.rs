use subs::codec::{decode_command, decode_reply, encode_command, encode_reply};
use subs::protocol::{Command, Reply};

fn round_trip_cmd(c: Command) {
    let wire = encode_command(&c);
    assert_eq!(decode_command(wire.as_str()), Some(c));
}

fn round_trip_reply(r: Reply) {
    let wire = encode_reply(&r);
    assert_eq!(decode_reply(wire.as_str()), Some(r));
}

#[test]
fn every_command_variant_round_trips() {
    round_trip_cmd(Command::Play);
    round_trip_cmd(Command::Pause);
    round_trip_cmd(Command::Toggle);
    round_trip_cmd(Command::Next);
    round_trip_cmd(Command::Prev);
    round_trip_cmd(Command::Stop);
    round_trip_cmd(Command::Clear);
    round_trip_cmd(Command::StatusReq);
    round_trip_cmd(Command::Add(0));
    round_trip_cmd(Command::Add(1887));
    round_trip_cmd(Command::AddMany(vec![]));
    round_trip_cmd(Command::AddMany(vec![1, 22, 333]));
    round_trip_cmd(Command::AddNext(42));
    round_trip_cmd(Command::AddSearch(String::from("deep purple")));
    round_trip_cmd(Command::AddNextSearch(String::from("smoke")));
    round_trip_cmd(Command::Search(String::from("water"), true, false, false, 20));
    round_trip_cmd(Command::Status(String::from("ready")));
}

#[test]
fn every_reply_variant_round_trips() {
    round_trip_reply(Reply::Empty);
    round_trip_reply(Reply::Other(String::from("nothing to display")));
    round_trip_reply(Reply::Search {
        albums: vec![String::from("Machine Head")],
        artists: vec![],
        songs: vec![String::from("a"), String::from("b")],
    });
}

#[test]
fn tricky_strings_round_trip() {
    round_trip_cmd(Command::AddSearch(String::from("")));
    round_trip_cmd(Command::AddSearch(String::from("say \"hi\"")));
    round_trip_cmd(Command::AddSearch(String::from("back\\slash")));
    round_trip_cmd(Command::AddSearch(String::from("tab\there\nand newline")));
    round_trip_cmd(Command::AddSearch(String::from("nul\u{0}ctl\u{1f}edge\u{20}")));
    round_trip_cmd(Command::AddSearch(String::from("motörhead — ウォーター")));
}

#[test]
fn canonical_wire_shapes() {
    assert_eq!(encode_command(&Command::Play), "\"Play\"");
    assert_eq!(encode_command(&Command::StatusReq), "\"StatusReq\"");
    assert_eq!(encode_command(&Command::Add(5)), "{\"Add\":5}");
    assert_eq!(encode_command(&Command::AddMany(vec![1, 2])), "{\"AddMany\":[1,2]}");
    assert_eq!(encode_command(&Command::AddMany(vec![])), "{\"AddMany\":[]}");
    assert_eq!(encode_command(&Command::AddNext(7)), "{\"AddNext\":7}");
    assert_eq!(
        encode_command(&Command::AddSearch(String::from("ab"))),
        "{\"AddSearch\":\"ab\"}"
    );
    assert_eq!(
        encode_command(&Command::Search(String::from("q"), false, true, false, 3)),
        "{\"Search\":[\"q\",false,true,false,3]}"
    );
    assert_eq!(encode_reply(&Reply::Empty), "\"None\"");
    assert_eq!(encode_reply(&Reply::Other(String::from("ok"))), "{\"Other\":\"ok\"}");
    assert_eq!(
        encode_reply(&Reply::Search {
            albums: vec![String::from("x")],
            artists: vec![],
            songs: vec![String::from("y"), String::from("z")],
        }),
        "{\"Search\":{\"albums\":[\"x\"],\"artists\":[],\"songs\":[\"y\",\"z\"]}}"
    );
}

#[test]
fn escapes_are_canonical() {
    assert_eq!(
        encode_command(&Command::Status(String::from("a\"b\\c\nd"))),
        "{\"Status\":\"a\\\"b\\\\c\\u000ad\"}"
    );
}

#[test]
fn malformed_input_is_refused() {
    assert_eq!(decode_command(""), None);
    assert_eq!(decode_command("Play"), None);
    assert_eq!(decode_command("\"Plays\""), None);
    assert_eq!(decode_command("\"play\""), None);
    assert_eq!(decode_command("{\"Add\":}"), None);
    assert_eq!(decode_command("{\"Add\":5"), None);
    assert_eq!(decode_command("{\"Add\":5}x"), None);
    assert_eq!(decode_command("{\"Add\":-5}"), None);
    assert_eq!(decode_command("{\"AddMany\":[1,]}"), None);
    assert_eq!(decode_command("{\"AddSearch\":\"unterminated}"), None);
    assert_eq!(decode_command("{\"Unknown\":1}"), None);
    assert_eq!(decode_command("{\"Add\":99999999999999999999999999}"), None);
    assert_eq!(decode_command("{\"Add\":007}"), None);
    assert_eq!(decode_command("{\"Add\":00}"), None);
    assert_eq!(decode_command("{\"AddSearch\":\"up\\u0041per\"}"), None);
    assert_eq!(decode_reply("null"), None);
    assert_eq!(decode_reply("\"None\" "), None);
}

#[test]
fn decoder_accepts_only_whole_messages() {
    assert_eq!(decode_command("\"Play\"\"Play\""), None);
    assert_eq!(decode_command(" \"Play\""), None);
    assert_eq!(decode_command("{\"Add\": 5}"), None);
}
