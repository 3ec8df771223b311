use vitellary::locator::{
    Scan, ScanStep, SignatureMatcher, CHUNK_SIZE, OFFSET_GAMETIME, SCAN_END, SCAN_START,
    SCAN_STEP,
};

fn signature(wildcard: u8) -> Vec<u8> {
    let mut s = b"00:00".to_vec();
    s.extend_from_slice(&[0u8; 18]);
    s.push(wildcard);
    s.extend_from_slice(b"nowhere");
    s
}

/// Memory that holds `bytes` at `base` and cannot be read anywhere else.
struct Memory {
    base: u64,
    bytes: Vec<u8>,
}

impl Memory {
    fn read(&self, addr: u64) -> Option<Vec<u8>> {
        let end = self.base + self.bytes.len() as u64;
        if addr >= self.base && addr + CHUNK_SIZE as u64 <= end {
            let off = (addr - self.base) as usize;
            Some(self.bytes[off..off + CHUNK_SIZE].to_vec())
        } else {
            None
        }
    }
}

fn run(memory: &Memory) -> Option<u64> {
    let mut scan = Scan::new();
    loop {
        let chunk = memory.read(scan.address());
        match scan.feed(chunk.as_deref()) {
            ScanStep::Read(next) => scan = next,
            ScanStep::Found(addr) => return Some(addr),
            ScanStep::NotFound => return None,
        }
    }
}

fn chunk_addr(k: u64) -> u64 {
    SCAN_START + k * SCAN_STEP
}

#[test]
fn locate_in_chunk_rounds_down_to_word() {
    let m = SignatureMatcher::new();
    let mut chunk = vec![0xffu8; CHUNK_SIZE];
    chunk[0x203..0x203 + 31].copy_from_slice(&signature(0x0e));
    let found = m.locate_in_chunk(SCAN_START, &chunk);
    assert_eq!(found, Some(SCAN_START + 0x200 - OFFSET_GAMETIME));
}

#[test]
fn locate_in_chunk_takes_first_match() {
    let m = SignatureMatcher::new();
    let mut chunk = vec![1u8; CHUNK_SIZE];
    chunk[0x400..0x400 + 31].copy_from_slice(&signature(7));
    chunk[0x100..0x100 + 31].copy_from_slice(&signature(7));
    assert_eq!(m.locate_in_chunk(SCAN_START, &chunk), Some(SCAN_START + 0x100 - 0xb8));
}

#[test]
fn wildcard_matches_any_byte() {
    let m = SignatureMatcher::new();
    for w in [0u8, b'\n', 0x80, 0xff] {
        let mut chunk = vec![1u8; 64];
        chunk[8..39].copy_from_slice(&signature(w));
        assert_eq!(m.locate_in_chunk(SCAN_START, &chunk), Some(SCAN_START + 8 - 0xb8));
    }
}

#[test]
fn near_miss_is_no_match() {
    let m = SignatureMatcher::new();
    let mut sig = signature(7);
    sig[10] = 1;
    let mut chunk = vec![0u8; 64];
    chunk[8..39].copy_from_slice(&sig);
    assert_eq!(m.locate_in_chunk(SCAN_START, &chunk), None);
    assert_eq!(m.locate_in_chunk(SCAN_START, &signature(7)[..30]), None);
}

#[test]
fn scan_finds_signature_inside_a_chunk() {
    let base = chunk_addr(5);
    let mut bytes = vec![0u8; 3 * CHUNK_SIZE];
    bytes[100..131].copy_from_slice(&signature(0x0e));
    let memory = Memory { base, bytes };
    assert_eq!(run(&memory), Some(base + 96 - OFFSET_GAMETIME));
}

#[test]
fn scan_finds_signature_across_a_chunk_boundary() {
    let base = chunk_addr(2);
    let mut bytes = vec![0u8; 3 * CHUNK_SIZE];
    // Starts 4090 bytes into the chunk at `base`: its tail lies past that
    // chunk's end, wholly inside the next, overlapping one.
    let at = 4090;
    bytes[at..at + 31].copy_from_slice(&signature(0x0e));
    let memory = Memory { base, bytes };
    let next = chunk_addr(3);
    let m = (base + at as u64 - next) as u64;
    assert_eq!(m, 34);
    assert_eq!(run(&memory), Some(next + 32 - OFFSET_GAMETIME));
}

#[test]
fn scan_skips_unreadable_chunks_and_reports_not_found() {
    let memory = Memory { base: chunk_addr(10), bytes: vec![0u8; 2 * CHUNK_SIZE] };
    assert_eq!(run(&memory), None);
}

#[test]
fn scan_reaches_last_chunk() {
    let mut k = 0;
    while chunk_addr(k + 1) < SCAN_END {
        k += 1;
    }
    let base = chunk_addr(k);
    let mut bytes = vec![0u8; CHUNK_SIZE];
    bytes[16..47].copy_from_slice(&signature(1));
    let memory = Memory { base, bytes };
    assert_eq!(run(&memory), Some(base + 16 - OFFSET_GAMETIME));
}

#[test]
fn scan_starts_at_range_start() {
    assert_eq!(Scan::new().address(), SCAN_START);
    assert_eq!(SCAN_STEP, CHUNK_SIZE as u64 - 40);
}
