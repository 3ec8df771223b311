//! Snapshots of the game's progress, and the events that successive
//! snapshots give rise to.

use vstd::prelude::*;
use crate::layout::{Elapsed, GameObject, GAME_OBJECT_SIZE, decode};

verus! {

/// One observation of the game's progress.
#[derive(Clone, Copy, Debug)]
pub struct State {
    pub room: (u32, u32),
    pub gamestate: u32,
    pub state: u32,
}

/// What a poll reports to a split timer.
#[derive(Clone, Copy, Debug, PartialEq, Eq, Structural)]
pub enum Event {
    NewGame,
    Verdigris,
    Vermilion,
    Victoria,
    Violet,
    Vitellary,
    IntermissionOne,
    IntermissionTwo,
    GameComplete,
    Reset,
}

/// The result of one poll: the game time, and at most one event.
#[derive(Clone, Copy, Debug, PartialEq, Eq, Structural)]
pub struct Update {
    pub time: Elapsed,
    pub event: Option<Event>,
}

/// The value that marks both state fields of a snapshot not yet read.
pub const UNSET: u32 = 0xffff_ffff;

/// The number of split ranges.
pub const SPLIT_COUNT: usize = 8;

/// The room ("Murdering Twinmaker") in which `state` 3006 really means the
/// Verdigris split.
pub const VERDIGRIS_ROOM_X: u32 = 115;
pub const VERDIGRIS_ROOM_Y: u32 = 100;

/// The game steps `state` to 3006 one poll before it jumps to the state it
/// means; only in the Verdigris room does 3006 really enter that split.
pub const VERDIGRIS_ENTRY_STATE: u32 = 3006;

/// The `gamestate` values of an active run.
pub open spec fn is_playing(gamestate: u32) -> bool {
    gamestate == 0 || gamestate == 4 || gamestate == 5
}

/// The `i`th split: its event and the inclusive range of `state` it covers.
pub open spec fn split_spec(i: int) -> (Event, u32, u32) {
    if i == 0 {
        (Event::Verdigris, 3006, 3011)
    } else if i == 1 {
        (Event::Vermilion, 3060, 3065)
    } else if i == 2 {
        (Event::Victoria, 3040, 3045)
    } else if i == 3 {
        (Event::Violet, 4091, 4099)
    } else if i == 4 {
        (Event::Vitellary, 3020, 3025)
    } else if i == 5 {
        (Event::IntermissionOne, 3085, 3087)
    } else if i == 6 {
        (Event::IntermissionTwo, 3080, 3082)
    } else {
        (Event::GameComplete, 3503, 3509)
    }
}

/// Whether `state` lies in the range of the `i`th split.
pub open spec fn in_split(i: int, state: u32) -> bool {
    split_spec(i).1 <= state <= split_spec(i).2
}

/// Whether going from `old` to `cur` enters the range of the `i`th split.
pub open spec fn enters(i: int, old: u32, cur: u32) -> bool {
    in_split(i, cur) && !in_split(i, old)
}

/// The event of the first split, from the `i`th on, whose range the step from
/// `old` to `cur` enters.
pub open spec fn first_entered(i: int, old: u32, cur: u32) -> Option<Event>
    decreases SPLIT_COUNT - i,
{
    if i < 0 || i >= SPLIT_COUNT {
        None
    } else if enters(i, old, cur) {
        Some(split_spec(i).0)
    } else {
        first_entered(i + 1, old, cur)
    }
}

/// The split event of the step from `old` to `cur`, if any.
pub open spec fn split_event(old: State, cur: State) -> Option<Event> {
    if cur.state == VERDIGRIS_ENTRY_STATE && cur.room != (VERDIGRIS_ROOM_X, VERDIGRIS_ROOM_Y) {
        None
    } else {
        first_entered(0, old.state, cur.state)
    }
}

/// What a poll reports for the step from `old` to `cur`, with `time` read
/// from the timer.
pub open spec fn classify_spec(old: State, cur: State, time: Elapsed) -> Update {
    if is_playing(cur.gamestate) && !is_playing(old.gamestate) {
        Update { time: Elapsed { secs: 0, nanos: 0 }, event: Some(Event::NewGame) }
    } else if !is_playing(cur.gamestate) && is_playing(old.gamestate) {
        Update { time, event: Some(Event::Reset) }
    } else {
        Update { time, event: split_event(old, cur) }
    }
}

impl State {
    /// The snapshot that stands for "not read yet".
    pub open spec fn unset() -> State {
        State { room: (UNSET, UNSET), gamestate: UNSET, state: UNSET }
    }

    /// A snapshot not read yet: every field holds `UNSET`.
    pub fn new() -> (r: State)
        ensures
            r == State::unset(),
    {
        State { room: (UNSET, UNSET), gamestate: UNSET, state: UNSET }
    }
}

/// Whether `gamestate` is one of an active run.
pub fn is_playing_state(gamestate: u32) -> (r: bool)
    ensures
        r == is_playing(gamestate),
{
    gamestate == 0 || gamestate == 4 || gamestate == 5
}

/// The `i`th split: its event and the inclusive range of `state` it covers.
pub fn split(i: usize) -> (r: (Event, u32, u32))
    requires
        i < SPLIT_COUNT,
    ensures
        r == split_spec(i as int),
{
    if i == 0 {
        (Event::Verdigris, 3006, 3011)
    } else if i == 1 {
        (Event::Vermilion, 3060, 3065)
    } else if i == 2 {
        (Event::Victoria, 3040, 3045)
    } else if i == 3 {
        (Event::Violet, 4091, 4099)
    } else if i == 4 {
        (Event::Vitellary, 3020, 3025)
    } else if i == 5 {
        (Event::IntermissionOne, 3085, 3087)
    } else if i == 6 {
        (Event::IntermissionTwo, 3080, 3082)
    } else {
        (Event::GameComplete, 3503, 3509)
    }
}

/// The event of the first split whose range `cur` lies in and `old` does not.
pub fn first_split_entered(old: u32, cur: u32) -> (r: Option<Event>)
    ensures
        r == first_entered(0, old, cur),
{
    let mut i: usize = 0;
    while i < SPLIT_COUNT
        invariant
            i <= SPLIT_COUNT,
            first_entered(0, old, cur) == first_entered(i as int, old, cur),
        decreases SPLIT_COUNT - i,
    {
        let (event, lo, hi) = split(i);
        if lo <= cur && cur <= hi && !(lo <= old && old <= hi) {
            return Some(event);
        }
        i = i + 1;
    }
    None
}

/// What a poll reports for the step from `old` to `cur`: `NewGame` with no
/// time where a run starts, `Reset` where one stops, else the split whose
/// range `cur.state` enters, if any.
pub fn classify(old: &State, cur: &State, time: Elapsed) -> (r: Update)
    ensures
        r == classify_spec(*old, *cur, time),
{
    let playing_now = is_playing_state(cur.gamestate);
    let playing_before = is_playing_state(old.gamestate);
    if playing_now && !playing_before {
        return Update { time: Elapsed::zero(), event: Some(Event::NewGame) };
    }
    if !playing_now && playing_before {
        return Update { time, event: Some(Event::Reset) };
    }
    let event = if cur.state == VERDIGRIS_ENTRY_STATE && (cur.room.0 != VERDIGRIS_ROOM_X
        || cur.room.1 != VERDIGRIS_ROOM_Y) {
        None
    } else {
        first_split_entered(old.state, cur.state)
    };
    Update { time, event }
}

/// The snapshot that the fields of `g` give.
pub open spec fn snapshot_of(g: GameObject) -> State {
    State { room: (g.room_x, g.room_y), gamestate: g.gamestate, state: g.state }
}

/// The previous and current snapshot after `new` is observed: both become
/// `new` on the first observation, else the current one becomes previous.
pub open spec fn next_history(previous: State, current: State, new: State) -> (State, State) {
    if previous.state == UNSET {
        (new, new)
    } else {
        (current, new)
    }
}

impl GameObject {
    /// The snapshot and the elapsed time that the game object holds.
    pub fn into_state(self) -> (r: (State, Elapsed))
        ensures
            r.0 == snapshot_of(self),
            r.1 == self.timer.elapsed_spec(),
            r.1.wf(),
            r.1.total_nanos() == self.timer.total_nanos(),
    {
        (
            State { room: (self.room_x, self.room_y), gamestate: self.gamestate, state: self.state },
            self.timer.elapsed(),
        )
    }
}

/// A session on one game object: where it lies, and the last two snapshots
/// read from it.
#[derive(Debug)]
pub struct Game {
    game_object_addr: u64,
    old: State,
    cur: State,
}

impl Game {
    /// The address of the game object.
    pub closed spec fn address(&self) -> u64 {
        self.game_object_addr
    }

    /// The snapshot before the last one.
    pub closed spec fn previous(&self) -> State {
        self.old
    }

    /// The last snapshot.
    pub closed spec fn current(&self) -> State {
        self.cur
    }

    /// The update that reading `buf` from the game object gives, from the
    /// snapshots before it.
    pub open spec fn poll_spec(previous: State, current: State, buf: Seq<u8>) -> (
        State,
        State,
        Update,
    ) {
        let g = decode(buf);
        let h = next_history(previous, current, snapshot_of(g));
        (h.0, h.1, classify_spec(h.0, h.1, g.timer.elapsed_spec()))
    }

    /// A session on the game object at `game_object_addr`, with nothing read
    /// yet.
    pub fn new(game_object_addr: u64) -> (r: Game)
        ensures
            r.address() == game_object_addr,
            r.previous() == State::unset(),
            r.current() == State::unset(),
    {
        Game { game_object_addr, old: State::new(), cur: State::new() }
    }

    /// The address of the game object.
    pub fn game_object_addr(&self) -> (r: u64)
        ensures
            r == self.address(),
    {
        self.game_object_addr
    }

    /// The snapshot before the last one.
    pub fn previous_state(&self) -> (r: State)
        ensures
            r == self.previous(),
    {
        self.old
    }

    /// The last snapshot.
    pub fn current_state(&self) -> (r: State)
        ensures
            r == self.current(),
    {
        self.cur
    }

    /// Takes in the bytes just read from the game object: records the
    /// snapshot they hold and reports the step from the previous one.
    pub fn update(&mut self, buf: &[u8]) -> (r: Update)
        requires
            buf@.len() == GAME_OBJECT_SIZE,
        ensures
            final(self).address() == old(self).address(),
            (final(self).previous(), final(self).current(), r) == Game::poll_spec(
                old(self).previous(),
                old(self).current(),
                buf@,
            ),
            old(self).previous().state == UNSET ==> r.event.is_none(),
    {
        let (state, time) = GameObject::from_bytes(buf).into_state();
        if self.old.state == UNSET {
            self.old = state;
            self.cur = state;
        } else {
            self.old = self.cur;
            self.cur = state;
        }
        let r = classify(&self.old, &self.cur, time);
        proof {
            if old(self).previous().state == UNSET {
                lemma_same_snapshot_quiet(state, time);
            }
        }
        r
    }
}

/// Where nothing changed between two snapshots, no split range is entered.
proof fn lemma_first_entered_same(i: int, s: u32)
    ensures
        first_entered(i, s, s).is_none(),
    decreases SPLIT_COUNT - i,
{
    if 0 <= i < SPLIT_COUNT {
        lemma_first_entered_same(i + 1, s);
    }
}

/// A step that stays on the same snapshot reports no event.
pub proof fn lemma_same_snapshot_quiet(s: State, time: Elapsed)
    ensures
        classify_spec(s, s, time).event.is_none(),
{
    lemma_first_entered_same(0, s.state);
}

/// The first poll of a session reports no event, whatever the game object
/// holds: both snapshots are then the one just read.
pub proof fn lemma_first_poll_quiet(buf: Seq<u8>)
    ensures
        ({
            let (p, c, u) = Game::poll_spec(State::unset(), State::unset(), buf);
            p == c && u.event.is_none()
        }),
{
    let g = decode(buf);
    lemma_same_snapshot_quiet(snapshot_of(g), g.timer.elapsed_spec());
}

/// The split-timer command that `e` stands for.
pub open spec fn command_spec(e: Event) -> Seq<char> {
    match e {
        Event::NewGame => "start"@,
        Event::Reset => "reset"@,
        _ => "split"@,
    }
}

impl Event {
    /// The split-timer command that the event stands for: "start" for a new
    /// game, "reset" for a reset, "split" for any of the splits.
    pub fn command(&self) -> (r: &'static str)
        ensures
            r@ == command_spec(*self),
    {
        match self {
            Event::NewGame => "start",
            Event::Reset => "reset",
            _ => "split",
        }
    }
}

/// The first split entered from the `j`th on is never the `i`th split's event
/// where the `i`th range is not entered.
proof fn lemma_first_entered_not(j: int, i: int, old: u32, cur: u32)
    requires
        0 <= i < SPLIT_COUNT,
        !enters(i, old, cur),
    ensures
        first_entered(j, old, cur) != Some(split_spec(i).0),
    decreases SPLIT_COUNT - j,
{
    if 0 <= j < SPLIT_COUNT && !enters(j, old, cur) {
        lemma_first_entered_not(j + 1, i, old, cur);
    }
}

/// A `state` that stays inside a split's range from one poll to the next
/// never fires that split again.
pub proof fn lemma_no_refire(old: State, cur: State, time: Elapsed, i: int)
    requires
        0 <= i < SPLIT_COUNT,
        in_split(i, old.state),
        in_split(i, cur.state),
    ensures
        classify_spec(old, cur, time).event != Some(split_spec(i).0),
{
    lemma_first_entered_not(0, i, old.state, cur.state);
}

} // verus!
