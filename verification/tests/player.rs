use subs::player::{CmdAction, EngineState, Player, TimeoutAction, IDLE_WAIT_SECS};
use subs::protocol::Command;

#[test]
fn play_while_idle_schedules_and_loads_the_track() {
    let mut p = Player::new();
    assert_eq!(p.run_cmd(&Command::Add(101), EngineState::Other, 0), CmdAction::Stay);
    assert_eq!(p.queue_len(), 1);

    // Play with no engine session: playback is marked running and the wait
    // bound drops to zero so the next cycle schedules immediately.
    assert_eq!(p.run_cmd(&Command::Play, EngineState::Other, 0), CmdAction::Stay);
    assert!(p.playing());
    assert!(!p.has_pipe());
    assert_eq!(p.song_rem(), 0);
    assert_eq!(p.wait_secs(), Some(0));

    // The wait times out at once; the player asks for exactly one load of
    // track 101 (the current track: no session existed yet).
    assert_eq!(p.on_timeout(), TimeoutAction::Load(101));
    assert_eq!(p.queue_position(), 0);

    // The caller resolves the track and starts one engine session; the
    // duration the catalog returned becomes the session's clock.
    p.track_started(Some(200), 0);
    assert!(p.has_pipe());
    assert_eq!(p.song_dur(), 200);
    assert_eq!(p.song_rem(), 200);
}

#[test]
fn pause_recomputes_remaining_and_toggle_keeps_it() {
    let mut p = Player::new();
    p.run_cmd(&Command::Add(7), EngineState::Other, 0);
    p.run_cmd(&Command::Play, EngineState::Other, 0);
    p.on_timeout();
    p.track_started(Some(200), 0);
    assert!(p.playing());

    // Pause at 30 s elapsed of a 200 s track: 170 s remain.
    assert_eq!(p.run_cmd(&Command::Pause, EngineState::Playing, 30), CmdAction::EnginePause);
    assert!(!p.playing());
    assert_eq!(p.song_rem(), 170);

    // Toggle right after: paused playback has not advanced, so the
    // recomputed remainder is still 170, not shrunk a second time.
    assert_eq!(p.run_cmd(&Command::Toggle, EngineState::Paused, 30), CmdAction::EnginePlay);
    assert!(p.playing());
    assert_eq!(p.song_rem(), 170);
}

#[test]
fn pause_clamps_a_late_elapsed_report() {
    let mut p = Player::new();
    p.run_cmd(&Command::Add(1), EngineState::Other, 0);
    p.run_cmd(&Command::Play, EngineState::Other, 0);
    p.on_timeout();
    p.track_started(Some(100), 0);
    p.run_cmd(&Command::Pause, EngineState::Playing, 150);
    assert_eq!(p.song_rem(), 0);
}

#[test]
fn stop_quits_the_loop() {
    let mut p = Player::new();
    p.run_cmd(&Command::Add(1), EngineState::Other, 0);
    assert_eq!(p.run_cmd(&Command::Stop, EngineState::Other, 0), CmdAction::Quit);
    // The queue is untouched by the stop itself.
    assert_eq!(p.queue_len(), 1);
}

#[test]
fn exhausted_queue_idles_on_the_sentinel_wait() {
    let mut p = Player::new();
    assert_eq!(p.on_timeout(), TimeoutAction::Idle);
    assert_eq!(p.song_rem(), IDLE_WAIT_SECS);
}

#[test]
fn timeout_with_session_advances_the_queue() {
    let mut p = Player::new();
    p.run_cmd(&Command::AddMany(vec![1, 2]), EngineState::Other, 0);
    p.run_cmd(&Command::Play, EngineState::Other, 0);
    assert_eq!(p.on_timeout(), TimeoutAction::Load(1));
    p.track_started(Some(10), 0);
    assert_eq!(p.on_timeout(), TimeoutAction::Load(2));
    p.track_started(None, 47616);
    // Duration fallback: an estimate from the byte size.
    assert_eq!(p.song_dur(), 47616 / 192 / 124);
    assert_eq!(p.on_timeout(), TimeoutAction::Idle);
    assert_eq!(p.song_rem(), IDLE_WAIT_SECS);
}

#[test]
fn play_on_empty_queue_changes_nothing() {
    let mut p = Player::new();
    assert_eq!(p.run_cmd(&Command::Play, EngineState::Other, 0), CmdAction::Stay);
    assert!(!p.playing());
    assert_eq!(p.wait_secs(), None);
}

#[test]
fn play_with_session_resumes_the_engine() {
    let mut p = Player::new();
    p.run_cmd(&Command::Add(3), EngineState::Other, 0);
    p.run_cmd(&Command::Play, EngineState::Other, 0);
    p.on_timeout();
    p.track_started(Some(60), 0);
    p.run_cmd(&Command::Pause, EngineState::Playing, 10);
    assert_eq!(p.run_cmd(&Command::Play, EngineState::Paused, 10), CmdAction::EnginePlay);
    assert!(p.playing());
}

#[test]
fn next_and_prev_force_an_immediate_cycle() {
    let mut p = Player::new();
    p.run_cmd(&Command::AddMany(vec![1, 2, 3]), EngineState::Other, 0);
    p.run_cmd(&Command::Play, EngineState::Other, 0);
    p.on_timeout();
    p.track_started(Some(100), 0);
    p.on_timeout();
    p.track_started(Some(100), 0);
    p.on_timeout();
    p.track_started(Some(100), 0);
    assert_eq!(p.queue_position(), 2);

    // Prev rewinds two positions so the forced advance lands on the track
    // before the current one.
    assert_eq!(p.run_cmd(&Command::Prev, EngineState::Other, 0), CmdAction::Stay);
    assert_eq!(p.song_rem(), 0);
    assert_eq!(p.on_timeout(), TimeoutAction::Load(2));

    p.track_started(Some(100), 0);
    assert_eq!(p.run_cmd(&Command::Next, EngineState::Other, 0), CmdAction::Stay);
    assert_eq!(p.song_rem(), 0);
    assert_eq!(p.on_timeout(), TimeoutAction::Load(3));
}

#[test]
fn failed_load_leaves_the_player_waiting_not_crashed() {
    let mut p = Player::new();
    p.run_cmd(&Command::Add(9), EngineState::Other, 0);
    p.run_cmd(&Command::Play, EngineState::Other, 0);
    assert_eq!(p.on_timeout(), TimeoutAction::Load(9));
    p.track_failed();
    assert!(!p.has_pipe());
    assert_eq!(p.song_rem(), IDLE_WAIT_SECS);
    // A later command still lands on a live state machine.
    assert_eq!(p.run_cmd(&Command::StatusReq, EngineState::Other, 0), CmdAction::SendStatus);
}

#[test]
fn status_text_renders_the_line_or_the_fixed_reply() {
    let mut p = Player::new();
    assert_eq!(p.status_text(&None, "", 0, 0), "nothing to display");

    p.run_cmd(&Command::AddMany(vec![4, 5]), EngineState::Other, 0);
    p.run_cmd(&Command::Play, EngineState::Other, 0);
    p.on_timeout();
    p.track_started(Some(180), 0);
    let line = p.status_text(&Some(String::from("Artist")), "Song", 90, 180);
    assert_eq!(line, "Artist - Song\n[playing]  #1/2  1:30/3:00 (50%)");

    p.run_cmd(&Command::Pause, EngineState::Playing, 90);
    let line2 = p.status_text(&None, "Song", 0, 180);
    assert_eq!(line2, "Song\n[paused]  #1/2  0:00/3:00 (0%)");
}

#[test]
fn status_clock_and_percent_edges() {
    let mut p = Player::new();
    p.run_cmd(&Command::Add(1), EngineState::Other, 0);
    p.run_cmd(&Command::Play, EngineState::Other, 0);
    p.on_timeout();
    p.track_started(Some(61), 0);
    // Seconds are zero-padded to two digits; percent rounds down.
    assert_eq!(
        p.status_text(&None, "T", 59, 61),
        "T\n[playing]  #1/1  0:59/1:01 (96%)"
    );
    assert_eq!(
        p.status_text(&None, "T", 60, 61),
        "T\n[playing]  #1/1  1:00/1:01 (98%)"
    );
    // An unknown duration cannot crash the percent computation.
    assert_eq!(p.status_text(&None, "T", 5, 0), "T\n[playing]  #1/1  0:05/0:00 (0%)");
}

#[test]
fn prev_near_the_start_replays_the_current_track() {
    let mut p = Player::new();
    p.run_cmd(&Command::AddMany(vec![1, 2]), EngineState::Other, 0);
    p.run_cmd(&Command::Play, EngineState::Other, 0);
    p.on_timeout();
    p.track_started(Some(100), 0);
    p.on_timeout();
    p.track_started(Some(100), 0);
    assert_eq!(p.queue_position(), 1);
    // Rewinding two positions clamps at zero, so from the second track the
    // forced advance lands back on that same track.
    p.run_cmd(&Command::Prev, EngineState::Other, 0);
    assert_eq!(p.on_timeout(), TimeoutAction::Load(2));
}

#[test]
fn daemon_side_variants_are_explicit_no_ops_for_the_player() {
    let mut p = Player::new();
    p.run_cmd(&Command::Add(1), EngineState::Other, 0);
    let before_len = p.queue_len();
    assert_eq!(
        p.run_cmd(&Command::AddSearch(String::from("q")), EngineState::Other, 0),
        CmdAction::Stay
    );
    assert_eq!(
        p.run_cmd(&Command::Status(String::from("s")), EngineState::Other, 0),
        CmdAction::Stay
    );
    assert_eq!(
        p.run_cmd(
            &Command::Search(String::from("q"), false, false, true, 1),
            EngineState::Other,
            0
        ),
        CmdAction::Stay
    );
    assert_eq!(p.queue_len(), before_len);
}
