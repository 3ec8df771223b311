//! The in-memory layout of the game object, and the time it holds.

use vstd::prelude::*;

verus! {

/// Size in bytes of the game object, up to and including the timer.
pub const GAME_OBJECT_SIZE: usize = 0xb4;

/// Byte offsets of the fields that are read.
pub const OFFSET_ROOM_X: usize = 0x18;
pub const OFFSET_ROOM_Y: usize = 0x1c;
pub const OFFSET_STATE: usize = 0x5c;
pub const OFFSET_GAMESTATE: usize = 0x68;
pub const OFFSET_FRAMES: usize = 0xa4;
pub const OFFSET_SECONDS: usize = 0xa8;
pub const OFFSET_MINUTES: usize = 0xac;
pub const OFFSET_HOURS: usize = 0xb0;

/// Nanoseconds in one second.
pub const NANOS_PER_SEC: u64 = 1_000_000_000;

/// The game runs at a fixed 30 frames per second; one frame lasts this many
/// nanoseconds (truncated).
pub const NANOS_PER_FRAME: u64 = NANOS_PER_SEC / 30;

/// The little-endian `u32` stored at `off` in `b`.
pub open spec fn u32_le(b: Seq<u8>, off: int) -> u32 {
    (b[off] as u32) | ((b[off + 1] as u32) << 8u32) | ((b[off + 2] as u32) << 16u32) | ((
    b[off + 3] as u32) << 24u32)
}

/// The four little-endian bytes of `x`.
pub open spec fn le_bytes(x: u32) -> Seq<u8> {
    seq![
        (x & 0xff) as u8,
        ((x >> 8u32) & 0xff) as u8,
        ((x >> 16u32) & 0xff) as u8,
        ((x >> 24u32) & 0xff) as u8,
    ]
}

/// `n` zero bytes.
pub open spec fn zeros(n: nat) -> Seq<u8> {
    Seq::new(n, |i: int| 0u8)
}

/// The game's timer, as four counters.
#[derive(Clone, Copy, Debug, PartialEq, Eq, Structural)]
pub struct Timer {
    pub frames: u32,
    pub seconds: u32,
    pub minutes: u32,
    pub hours: u32,
}

/// An elapsed time: whole seconds and the nanoseconds beyond them.
#[derive(Clone, Copy, Debug, PartialEq, Eq, Structural)]
pub struct Elapsed {
    pub secs: u64,
    pub nanos: u32,
}

impl Elapsed {
    /// The time in nanoseconds.
    pub open spec fn total_nanos(self) -> int {
        self.secs * NANOS_PER_SEC + self.nanos
    }

    /// Whether `nanos` is below one second.
    pub open spec fn wf(self) -> bool {
        self.nanos < NANOS_PER_SEC
    }

    /// No time at all.
    pub fn zero() -> (r: Elapsed)
        ensures
            r.wf(),
            r.total_nanos() == 0,
            r.secs == 0 && r.nanos == 0,
    {
        Elapsed { secs: 0, nanos: 0 }
    }
}

impl Timer {
    /// The whole seconds that the counters other than `frames` hold.
    pub open spec fn whole_seconds(self) -> int {
        self.hours * 3600 + self.minutes * 60 + self.seconds
    }

    /// The time the timer shows, in nanoseconds.
    pub open spec fn total_nanos(self) -> int {
        self.whole_seconds() * NANOS_PER_SEC + self.frames * NANOS_PER_FRAME
    }

    /// The elapsed time the timer shows, with the frames carried into seconds
    /// where they make up one.
    pub open spec fn elapsed_spec(self) -> Elapsed {
        Elapsed {
            secs: (self.whole_seconds() + (self.frames * NANOS_PER_FRAME) / NANOS_PER_SEC as int) as u64,
            nanos: ((self.frames * NANOS_PER_FRAME) % NANOS_PER_SEC as int) as u32,
        }
    }

    /// The elapsed time the timer shows: whole seconds, and the frames as
    /// nanoseconds, carried into seconds where they make up one.
    pub fn elapsed(&self) -> (r: Elapsed)
        ensures
            r == self.elapsed_spec(),
            r.wf(),
            r.total_nanos() == self.total_nanos(),
    {
        let whole: u64 = self.hours as u64 * 3600 + self.minutes as u64 * 60 + self.seconds as u64;
        let frame_nanos: u64 = self.frames as u64 * NANOS_PER_FRAME;
        let carry: u64 = frame_nanos / NANOS_PER_SEC;
        let nanos: u64 = frame_nanos % NANOS_PER_SEC;
        proof {
            vstd::arithmetic::div_mod::lemma_fundamental_div_mod(
                frame_nanos as int,
                NANOS_PER_SEC as int,
            );
        }
        let r = Elapsed { secs: whole + carry, nanos: nanos as u32 };
        proof {
            assert(r.total_nanos() == (whole + carry) * NANOS_PER_SEC + nanos) by (nonlinear_arith)
                requires
                    r.secs == whole + carry,
                    r.nanos == nanos,
            ;
            assert((whole + carry) * NANOS_PER_SEC == whole * NANOS_PER_SEC + carry
                * NANOS_PER_SEC) by (nonlinear_arith);
        }
        r
    }
}

/// The fields of the game object that are read, in their raw form.
#[derive(Clone, Copy, Debug, PartialEq, Eq, Structural)]
pub struct GameObject {
    pub room_x: u32,
    pub room_y: u32,
    pub state: u32,
    pub gamestate: u32,
    pub timer: Timer,
}

/// The fields that `b` holds at the offsets of the game object layout.
pub open spec fn decode(b: Seq<u8>) -> GameObject {
    GameObject {
        room_x: u32_le(b, OFFSET_ROOM_X as int),
        room_y: u32_le(b, OFFSET_ROOM_Y as int),
        state: u32_le(b, OFFSET_STATE as int),
        gamestate: u32_le(b, OFFSET_GAMESTATE as int),
        timer: Timer {
            frames: u32_le(b, OFFSET_FRAMES as int),
            seconds: u32_le(b, OFFSET_SECONDS as int),
            minutes: u32_le(b, OFFSET_MINUTES as int),
            hours: u32_le(b, OFFSET_HOURS as int),
        },
    }
}

/// The canonical bytes of `g`: its fields at their offsets, zeros elsewhere.
pub open spec fn encode(g: GameObject) -> Seq<u8> {
    zeros(0x18) + le_bytes(g.room_x) + le_bytes(g.room_y) + zeros(0x3c) + le_bytes(g.state)
        + zeros(0x08) + le_bytes(g.gamestate) + zeros(0x38) + le_bytes(g.timer.frames) + le_bytes(
        g.timer.seconds,
    ) + le_bytes(g.timer.minutes) + le_bytes(g.timer.hours)
}

/// Reading back the four little-endian bytes of a `u32` gives that `u32`.
pub proof fn lemma_u32_le_bytes(x: u32)
    ensures
        u32_le(le_bytes(x), 0) == x,
{
    let b = le_bytes(x);
    let b0 = b[0];
    let b1 = b[1];
    let b2 = b[2];
    let b3 = b[3];
    assert(b0 == (x & 0xff) as u8);
    assert(b1 == ((x >> 8u32) & 0xff) as u8);
    assert(b2 == ((x >> 16u32) & 0xff) as u8);
    assert(b3 == ((x >> 24u32) & 0xff) as u8);
    assert((b0 as u32) | ((b1 as u32) << 8u32) | ((b2 as u32) << 16u32) | ((b3 as u32) << 24u32)
        == x) by (bit_vector)
        requires
            b0 == (x & 0xff) as u8,
            b1 == ((x >> 8u32) & 0xff) as u8,
            b2 == ((x >> 16u32) & 0xff) as u8,
            b3 == ((x >> 24u32) & 0xff) as u8,
    ;
}

/// The `u32` at `off` is `x` where the four bytes there are those of `x`.
proof fn lemma_u32_le_at(b: Seq<u8>, off: int, x: u32)
    requires
        0 <= off,
        off + 4 <= b.len(),
        b.subrange(off, off + 4) == le_bytes(x),
    ensures
        u32_le(b, off) == x,
{
    assert(b[off] == b.subrange(off, off + 4)[0]);
    assert(b[off + 1] == b.subrange(off, off + 4)[1]);
    assert(b[off + 2] == b.subrange(off, off + 4)[2]);
    assert(b[off + 3] == b.subrange(off, off + 4)[3]);
    lemma_u32_le_bytes(x);
}

/// Decoding the canonical bytes of a game object gives back every field.
pub proof fn lemma_decode_encode(g: GameObject)
    ensures
        encode(g).len() == GAME_OBJECT_SIZE,
        decode(encode(g)) == g,
{
    let e = encode(g);
    assert(e.subrange(0x18, 0x1c) =~= le_bytes(g.room_x));
    assert(e.subrange(0x1c, 0x20) =~= le_bytes(g.room_y));
    assert(e.subrange(0x5c, 0x60) =~= le_bytes(g.state));
    assert(e.subrange(0x68, 0x6c) =~= le_bytes(g.gamestate));
    assert(e.subrange(0xa4, 0xa8) =~= le_bytes(g.timer.frames));
    assert(e.subrange(0xa8, 0xac) =~= le_bytes(g.timer.seconds));
    assert(e.subrange(0xac, 0xb0) =~= le_bytes(g.timer.minutes));
    assert(e.subrange(0xb0, 0xb4) =~= le_bytes(g.timer.hours));
    lemma_u32_le_at(e, 0x18, g.room_x);
    lemma_u32_le_at(e, 0x1c, g.room_y);
    lemma_u32_le_at(e, 0x5c, g.state);
    lemma_u32_le_at(e, 0x68, g.gamestate);
    lemma_u32_le_at(e, 0xa4, g.timer.frames);
    lemma_u32_le_at(e, 0xa8, g.timer.seconds);
    lemma_u32_le_at(e, 0xac, g.timer.minutes);
    lemma_u32_le_at(e, 0xb0, g.timer.hours);
}

/// The little-endian `u32` at `off` in `b`.
pub fn read_u32_le(b: &[u8], off: usize) -> (r: u32)
    requires
        off + 4 <= b@.len(),
    ensures
        r == u32_le(b@, off as int),
{
    (b[off] as u32) | ((b[off + 1] as u32) << 8u32) | ((b[off + 2] as u32) << 16u32) | ((b[off
        + 3] as u32) << 24u32)
}

/// Appends the four little-endian bytes of `x` to `v`.
fn push_u32_le(v: &mut Vec<u8>, x: u32)
    ensures
        final(v)@ == old(v)@ + le_bytes(x),
{
    v.push((x & 0xff) as u8);
    v.push(((x >> 8u32) & 0xff) as u8);
    v.push(((x >> 16u32) & 0xff) as u8);
    v.push(((x >> 24u32) & 0xff) as u8);
    assert(final(v)@ =~= old(v)@ + le_bytes(x));
}

/// Appends `n` zero bytes to `v`.
fn push_zeros(v: &mut Vec<u8>, n: usize)
    ensures
        final(v)@ == old(v)@ + zeros(n as nat),
{
    let ghost start = v@;
    let mut i: usize = 0;
    while i < n
        invariant
            i <= n,
            v@ =~= start + zeros(i as nat),
        decreases n - i,
    {
        v.push(0u8);
        i = i + 1;
    }
}

impl GameObject {
    /// Reads the fields of the game object out of its bytes.
    pub fn from_bytes(buf: &[u8]) -> (r: GameObject)
        requires
            buf@.len() == GAME_OBJECT_SIZE,
        ensures
            r == decode(buf@),
    {
        GameObject {
            room_x: read_u32_le(buf, OFFSET_ROOM_X),
            room_y: read_u32_le(buf, OFFSET_ROOM_Y),
            state: read_u32_le(buf, OFFSET_STATE),
            gamestate: read_u32_le(buf, OFFSET_GAMESTATE),
            timer: Timer {
                frames: read_u32_le(buf, OFFSET_FRAMES),
                seconds: read_u32_le(buf, OFFSET_SECONDS),
                minutes: read_u32_le(buf, OFFSET_MINUTES),
                hours: read_u32_le(buf, OFFSET_HOURS),
            },
        }
    }

    /// The canonical bytes of the game object: its fields at their offsets,
    /// zeros in between.
    pub fn to_bytes(&self) -> (r: Vec<u8>)
        ensures
            r@ == encode(*self),
            r@.len() == GAME_OBJECT_SIZE,
    {
        let mut v: Vec<u8> = Vec::new();
        push_zeros(&mut v, 0x18);
        push_u32_le(&mut v, self.room_x);
        push_u32_le(&mut v, self.room_y);
        push_zeros(&mut v, 0x3c);
        push_u32_le(&mut v, self.state);
        push_zeros(&mut v, 0x08);
        push_u32_le(&mut v, self.gamestate);
        push_zeros(&mut v, 0x38);
        push_u32_le(&mut v, self.timer.frames);
        push_u32_le(&mut v, self.timer.seconds);
        push_u32_le(&mut v, self.timer.minutes);
        push_u32_le(&mut v, self.timer.hours);
        assert(v@ =~= encode(*self));
        proof {
            lemma_decode_encode(*self);
        }
        v
    }
}

} // verus!
