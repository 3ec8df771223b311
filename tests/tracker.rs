use vitellary::layout::{Elapsed, GameObject, Timer};
use vitellary::tracker::{classify, first_split_entered, split, Event, Game, State, UNSET};

fn snap(room: (u32, u32), gamestate: u32, state: u32) -> State {
    State { room, gamestate, state }
}

fn time() -> Elapsed {
    Elapsed { secs: 62, nanos: 499_999_995 }
}

fn object(room: (u32, u32), gamestate: u32, state: u32, timer: Timer) -> Vec<u8> {
    GameObject { room_x: room.0, room_y: room.1, state, gamestate, timer }.to_bytes()
}

#[test]
fn verdigris_fires_on_entry_in_right_room() {
    let u = classify(&snap((114, 100), 0, 3005), &snap((115, 100), 0, 3006), time());
    assert_eq!(u.event, Some(Event::Verdigris));
    assert_eq!(u.time, time());
}

#[test]
fn state_3006_in_wrong_room_is_ignored() {
    let u = classify(&snap((114, 100), 0, 3005), &snap((114, 100), 0, 3006), time());
    assert_eq!(u.event, None);
    let u = classify(&snap((115, 100), 0, 3005), &snap((115, 101), 0, 3006), time());
    assert_eq!(u.event, None);
}

#[test]
fn staying_inside_a_range_does_not_refire() {
    let u = classify(&snap((115, 100), 0, 3007), &snap((115, 100), 0, 3008), time());
    assert_eq!(u.event, None);
    assert_eq!(u.time, time());
}

#[test]
fn verdigris_fires_on_entry_past_3006() {
    let u = classify(&snap((1, 1), 0, 3000), &snap((1, 1), 0, 3007), time());
    assert_eq!(u.event, Some(Event::Verdigris));
}

#[test]
fn each_split_fires_on_entry() {
    let expected = [
        (3060, Event::Vermilion),
        (3045, Event::Victoria),
        (4091, Event::Violet),
        (3022, Event::Vitellary),
        (3085, Event::IntermissionOne),
        (3082, Event::IntermissionTwo),
        (3509, Event::GameComplete),
    ];
    for (state, event) in expected {
        let u = classify(&snap((0, 0), 4, 0), &snap((0, 0), 4, state), time());
        assert_eq!(u.event, Some(event), "state {}", state);
    }
}

#[test]
fn state_outside_every_range_fires_nothing() {
    for state in [3005, 3012, 3059, 3066, 3500, 4100] {
        assert_eq!(first_split_entered(0, state), None);
    }
}

#[test]
fn moving_between_ranges_fires_the_new_one() {
    assert_eq!(first_split_entered(3007, 3060), Some(Event::Vermilion));
}

#[test]
fn split_table_in_order() {
    assert_eq!(split(0), (Event::Verdigris, 3006, 3011));
    assert_eq!(split(7), (Event::GameComplete, 3503, 3509));
}

#[test]
fn new_game_forces_zero_time() {
    let u = classify(&snap((0, 0), 7, 0), &snap((0, 0), 0, 0), time());
    assert_eq!(u.event, Some(Event::NewGame));
    assert_eq!(u.time, Elapsed { secs: 0, nanos: 0 });
}

#[test]
fn new_game_wins_over_a_split() {
    let u = classify(&snap((0, 0), 9, 0), &snap((0, 0), 5, 3060), time());
    assert_eq!(u.event, Some(Event::NewGame));
}

#[test]
fn reset_keeps_time() {
    let u = classify(&snap((0, 0), 0, 0), &snap((0, 0), 9, 0), time());
    assert_eq!(u.event, Some(Event::Reset));
    assert_eq!(u.time, time());
}

#[test]
fn playing_to_playing_is_no_transition() {
    let u = classify(&snap((0, 0), 4, 0), &snap((0, 0), 5, 0), time());
    assert_eq!(u.event, None);
}

#[test]
fn new_state_is_unset() {
    let s = State::new();
    assert_eq!(s.room, (UNSET, UNSET));
    assert_eq!(s.gamestate, u32::MAX);
    assert_eq!(s.state, u32::MAX);
}

#[test]
fn first_poll_reports_no_event_even_mid_run() {
    let mut game = Game::new(0x1000);
    let timer = Timer { frames: 3, seconds: 10, minutes: 0, hours: 0 };
    let u = game.update(&object((115, 100), 0, 3006, timer));
    assert_eq!(u.event, None);
    assert_eq!(u.time, Elapsed { secs: 10, nanos: 99_999_999 });
    assert_eq!(game.previous_state().state, 3006);
    assert_eq!(game.current_state().state, 3006);
    assert_eq!(game.game_object_addr(), 0x1000);
}

#[test]
fn polls_shift_history_and_classify() {
    let mut game = Game::new(0x1000);
    let timer = Timer { frames: 0, seconds: 1, minutes: 0, hours: 0 };
    game.update(&object((0, 0), 7, 0, timer));
    let u = game.update(&object((0, 0), 0, 0, timer));
    assert_eq!(u.event, Some(Event::NewGame));
    assert_eq!(u.time, Elapsed::zero());
    assert_eq!(game.previous_state().gamestate, 7);
    assert_eq!(game.current_state().gamestate, 0);
    let u = game.update(&object((115, 100), 0, 3006, timer));
    assert_eq!(u.event, Some(Event::Verdigris));
    assert_eq!(u.time, Elapsed { secs: 1, nanos: 0 });
    let u = game.update(&object((115, 100), 0, 3007, timer));
    assert_eq!(u.event, None);
    let u = game.update(&object((115, 100), 9, 3007, timer));
    assert_eq!(u.event, Some(Event::Reset));
}

#[test]
fn event_commands() {
    assert_eq!(Event::NewGame.command(), "start");
    assert_eq!(Event::Reset.command(), "reset");
    for e in [
        Event::Verdigris,
        Event::Vermilion,
        Event::Victoria,
        Event::Violet,
        Event::Vitellary,
        Event::IntermissionOne,
        Event::IntermissionTwo,
        Event::GameComplete,
    ] {
        assert_eq!(e.command(), "split");
    }
}
