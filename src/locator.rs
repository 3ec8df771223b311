//! Finding the game object in the game's address space.
//!
//! Where the executable loads at a fixed base the object sits at a fixed
//! address. Where it loads at a random base, the address space is scanned in
//! overlapping chunks for the initial values of two adjacent short strings of
//! the object, "00:00" and "nowhere"; the object starts a fixed distance before
//! the word that holds the first of them.

use vstd::prelude::*;

verus! {

/// The address of the game object where the executable loads at a fixed base.
pub const FIXED_GAME_OBJECT_ADDR: u64 = 0x854dc0;

/// The first address scanned.
pub const SCAN_START: u64 = 0x1_0000_0000;

/// The end (exclusive) of the range of chunk addresses scanned.
pub const SCAN_END: u64 = 0x1_4000_0000;

/// The number of bytes read at each chunk address.
pub const CHUNK_SIZE: usize = 4096;

/// The number of bytes that each chunk shares with the next one.
pub const CHUNK_OVERLAP: usize = 0x28;

/// The distance between two successive chunk addresses.
pub const SCAN_STEP: u64 = 4056;

/// The distance from the start of the game object to the word that holds
/// the "00:00" string.
pub const OFFSET_GAMETIME: u64 = 0xb8;

/// The length of the signature in bytes.
pub const SIGNATURE_LEN: usize = 31;

/// The signature as a byte-level regular expression: "00:00", eighteen zero
/// bytes, any byte, "nowhere".
pub const SIGNATURE_PATTERN: &'static str = "(?s-u)00:00\\x00{18}.nowhere";

/// Whether the signature starts at `i` in `b`: the bytes of "00:00", eighteen
/// zero bytes, any one byte, then the bytes of "nowhere".
pub open spec fn signature_at(b: Seq<u8>, i: int) -> bool {
    &&& 0 <= i
    &&& i + SIGNATURE_LEN <= b.len()
    &&& b.subrange(i, i + 5) == seq![0x30u8, 0x30u8, 0x3au8, 0x30u8, 0x30u8]
    &&& forall|k: int| 5 <= k < 23 ==> #[trigger] b[i + k] == 0u8
    &&& b.subrange(i + 24, i + 31) == seq![0x6eu8, 0x6fu8, 0x77u8, 0x68u8, 0x65u8, 0x72u8, 0x65u8]
}

/// Whether the signature starts anywhere in `b`.
pub open spec fn has_signature(b: Seq<u8>) -> bool {
    exists|i: int| signature_at(b, i)
}

/// Whether a chunk was read and holds the signature.
pub open spec fn read_signature(chunk: Option<&[u8]>) -> bool {
    match chunk {
        Some(c) => has_signature(c@),
        None => false,
    }
}

/// Whether `i` is the first place in `b` where the signature starts.
pub open spec fn is_first_signature(b: Seq<u8>, i: int) -> bool {
    signature_at(b, i) && forall|j: int| 0 <= j < i ==> !signature_at(b, j)
}

/// The first place in `b` where the signature starts.
pub open spec fn first_signature(b: Seq<u8>) -> int {
    choose|i: int| is_first_signature(b, i)
}

/// The address of the game object, where the signature starts `m` bytes into
/// the chunk read at `chunk_addr`: the start of the 8-byte word that holds
/// it, less `OFFSET_GAMETIME`.
pub open spec fn object_address(chunk_addr: u64, m: int) -> int {
    chunk_addr + (m - m % 8) - OFFSET_GAMETIME
}

/// There is only one first place of the signature.
proof fn lemma_first_signature_unique(b: Seq<u8>, i: int)
    requires
        is_first_signature(b, i),
    ensures
        has_signature(b),
        first_signature(b) == i,
{
    let c = first_signature(b);
    assert(is_first_signature(b, c));
    if c < i {
        assert(!signature_at(b, c));
    }
    if i < c {
        assert(!signature_at(b, i));
    }
}

/// Chunks overlap far enough that no signature is split between two reads:
/// where `memory` holds the signature at `start`, and the chunk read at
/// `chunk_addr` is the last to begin at or before `start`, that chunk holds
/// the whole signature, `start - chunk_addr` bytes in.
pub proof fn lemma_overlap_holds_signature(memory: Seq<u8>, chunk_addr: int, start: int)
    requires
        0 <= chunk_addr <= start < chunk_addr + SCAN_STEP,
        chunk_addr + CHUNK_SIZE <= memory.len(),
        signature_at(memory, start),
    ensures
        SCAN_STEP == CHUNK_SIZE - CHUNK_OVERLAP,
        signature_at(memory.subrange(chunk_addr, chunk_addr + CHUNK_SIZE), start - chunk_addr),
{
    let chunk = memory.subrange(chunk_addr, chunk_addr + CHUNK_SIZE);
    let m = start - chunk_addr;
    assert(chunk.subrange(m, m + 5) =~= memory.subrange(start, start + 5));
    assert(chunk.subrange(m + 24, m + 31) =~= memory.subrange(start + 24, start + 31));
    assert forall|k: int| 5 <= k < 23 implies #[trigger] chunk[m + k] == 0u8 by {
        assert(chunk[m + k] == memory[start + k]);
    }
}

/// A compiled matcher for the signature.
pub struct SignatureMatcher {
    regex: regex::bytes::Regex,
}

#[verifier::external_type_specification]
#[verifier::external_body]
pub struct ExRegex(regex::bytes::Regex);

impl SignatureMatcher {
    /// Relies on regex::bytes::Regex::new, which compiles `pattern`; it panics
    /// only on an invalid pattern, and the signature's pattern is valid.
    #[verifier::external_body]
    fn compile(pattern: &str) -> (r: SignatureMatcher)
        requires
            pattern@ == SIGNATURE_PATTERN@,
    {
        SignatureMatcher { regex: regex::bytes::Regex::new(pattern).unwrap() }
    }

    /// Relies on regex::bytes::Regex::find, which returns the leftmost match
    /// of the regex; the regex is the signature's (see `compile`, the one way
    /// to make a matcher), so the match is where the signature first starts.
    #[verifier::external_body]
    fn find(&self, haystack: &[u8]) -> (r: Option<usize>)
        ensures
            match r {
                Some(m) => is_first_signature(haystack@, m as int),
                None => !has_signature(haystack@),
            },
    {
        self.regex.find(haystack).map(|m| m.start())
    }

    /// A matcher for the signature.
    pub fn new() -> (r: SignatureMatcher) {
        SignatureMatcher::compile(SIGNATURE_PATTERN)
    }

    /// The address of the game object, where the chunk read at `chunk_addr`
    /// holds the signature; `None` where it does not.
    pub fn locate_in_chunk(&self, chunk_addr: u64, chunk: &[u8]) -> (r: Option<u64>)
        requires
            SCAN_START <= chunk_addr < SCAN_END,
            chunk@.len() <= CHUNK_SIZE,
        ensures
            r.is_some() == has_signature(chunk@),
            r.is_some() ==> r.unwrap() == object_address(chunk_addr, first_signature(chunk@)),
    {
        match self.find(chunk) {
            Some(m) => {
                proof {
                    lemma_first_signature_unique(chunk@, m as int);
                }
                let word_start: u64 = (m - m % 8) as u64;
                Some(chunk_addr + word_start - OFFSET_GAMETIME)
            },
            None => None,
        }
    }
}

/// A scan in progress: the next chunk to read, and the matcher to search it
/// with.
pub struct Scan {
    matcher: SignatureMatcher,
    address: u64,
}

/// What a scan asks for after a chunk: the next chunk, or its outcome.
pub enum ScanStep {
    /// Read `CHUNK_SIZE` bytes at the scan's next address and feed them to it.
    Read(Scan),
    /// The game object starts at this address.
    Found(u64),
    /// The whole range was scanned without a match.
    NotFound,
}

impl Scan {
    #[verifier::type_invariant]
    spec fn in_range(&self) -> bool {
        SCAN_START <= self.address < SCAN_END
    }

    /// The address of the next chunk to read.
    pub closed spec fn next_address(&self) -> u64 {
        self.address
    }

    /// A scan at the start of the range.
    pub fn new() -> (r: Scan)
        ensures
            r.next_address() == SCAN_START,
    {
        Scan { matcher: SignatureMatcher::new(), address: SCAN_START }
    }

    /// The address of the next chunk to read.
    pub fn address(&self) -> (r: u64)
        ensures
            r == self.next_address(),
            SCAN_START <= r < SCAN_END,
    {
        proof {
            use_type_invariant(self);
        }
        self.address
    }

    /// Takes in the chunk read at the scan's address, `None` where that
    /// memory could not be read. Where the chunk holds the signature, the
    /// game object is found; else the scan moves on to the next chunk, or
    /// ends where none is left.
    pub fn feed(self, chunk: Option<&[u8]>) -> (r: ScanStep)
        requires
            match chunk {
                Some(c) => c@.len() <= CHUNK_SIZE,
                None => true,
            },
        ensures
            read_signature(chunk) ==> r == ScanStep::Found(
                object_address(self.next_address(), first_signature(chunk.unwrap()@)) as u64,
            ),
            !read_signature(chunk) ==> if self.next_address() + SCAN_STEP < SCAN_END {
                r matches ScanStep::Read(next) && next.next_address() == self.next_address()
                    + SCAN_STEP
            } else {
                r == ScanStep::NotFound
            },
    {
        proof {
            use_type_invariant(&self);
        }
        if let Some(c) = chunk {
            if let Some(addr) = self.matcher.locate_in_chunk(self.address, c) {
                return ScanStep::Found(addr);
            }
        }
        if self.address < SCAN_END - SCAN_STEP {
            let next = Scan { matcher: self.matcher, address: self.address + SCAN_STEP };
            ScanStep::Read(next)
        } else {
            ScanStep::NotFound
        }
    }
}

} // verus!
