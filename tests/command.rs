use vitellary::layout::Elapsed;
use vitellary::tracker::{Event, Update};

#[test]
fn game_time_pads_nanoseconds_to_nine_digits() {
    let e = Elapsed { secs: 62, nanos: 499_999_995 };
    assert_eq!(e.game_time_command(), "setgametime 62.499999995");
    let e = Elapsed { secs: 3, nanos: 5 };
    assert_eq!(e.game_time_command(), "setgametime 3.000000005");
}

#[test]
fn game_time_of_zero() {
    assert_eq!(Elapsed::zero().game_time_command(), "setgametime 0.000000000");
}

#[test]
fn game_time_of_largest_seconds() {
    let e = Elapsed { secs: u64::MAX, nanos: 999_999_999 };
    assert_eq!(e.game_time_command(), "setgametime 18446744073709551615.999999999");
}

#[test]
fn update_without_event_sends_time_only() {
    let u = Update { time: Elapsed { secs: 10, nanos: 0 }, event: None };
    assert_eq!(u.commands(), vec!["setgametime 10.000000000".to_string()]);
}

#[test]
fn update_with_event_sends_its_command_after_time() {
    let u = Update { time: Elapsed::zero(), event: Some(Event::NewGame) };
    assert_eq!(u.commands(), vec!["setgametime 0.000000000".to_string(), "start".to_string()]);
    let u = Update { time: Elapsed { secs: 1, nanos: 2 }, event: Some(Event::GameComplete) };
    assert_eq!(u.commands(), vec!["setgametime 1.000000002".to_string(), "split".to_string()]);
    let u = Update { time: Elapsed { secs: 1, nanos: 2 }, event: Some(Event::Reset) };
    assert_eq!(u.commands()[1], "reset");
}
