//! `photo`: pulling photos off the badge and sending one to it over serial.
//!
//! A photo is 128x128 at one bit per pixel: 2048 bytes, sent as 32 chunks of
//! 64. Each chunk travels base64-encoded in a `photo put` line with this wire
//! format:
//!
//! ```text
//!   [0..2]   u16  chunk index, big-endian
//!   [2..66]  u8*64 pixel data
//!   [66..70] u32  CRC-32 of bytes [0..66], big-endian
//! ```
use vstd::prelude::*;
use vstd::string::StringSliceAdditionalSpecFns;
use crate::deps::{
    base64_decode, base64_standard_decoding, crc32, crc32_ieee, words_as_bytes,
    byte_of, words_native_bytes,
};
use crate::text::{
    all_digits, digits_value, four_digit_decimal, four_digit_order, four_digit_value, is_digit,
    lemma_lex_common_prefix, lex_le, unsigned_body,
    chars_equal, chars_of, decimal, first_token, next_token, pad_left, parse_unsigned,
    parse_unsigned_in, push_chars, push_decimal, push_padded_decimal, push_str, second_token,
    decimal_reads_back,
};

verus! {

/// Bytes in a photo.
pub const PHOTO_BYTES: usize = 2048;

/// The most photos the badge keeps.
pub const PHOTO_CAP: usize = 32;

/// Pixel bytes in a chunk.
pub const CHUNK_DATA_SIZE: usize = 64;

/// Bytes of the chunk index at the front of a chunk.
pub const CHUNK_INDEX_BYTES: usize = 2;

/// Bytes of a whole chunk on the wire: index, data and CRC.
pub const CHUNK_WIRE_SIZE: usize = 70;

/// Chunks in a photo.
pub const NUM_CHUNKS: usize = 32;

/// 32-bit words in a photo's bitmap.
pub const BITMAP_WORDS: usize = 512;

/// A self-contained uploader, kept on the badge so nobody has to go and find
/// one: `photo script > upload_photo.py` and it is ready to run. It speaks the
/// chunk wire format above, and packs bits the way the camera writes them.
pub const UPLOAD_SCRIPT: &'static str = r##"#!/usr/bin/env python3
"""Send an image to an S-CAM badge over its serial console.

    python3 upload_photo.py picture.png            # needs Pillow
    python3 upload_photo.py picture.raw --raw      # 2048 bytes, already packed
    python3 upload_photo.py picture.png -p /dev/ttyACM0

The badge stores 128x128 at one bit per pixel. Anything else is scaled to fit and
thresholded; --invert flips which side of the threshold becomes ink.
"""
import argparse, base64, glob, os, select, struct, sys, termios, time, zlib

W = H = 128
CHUNKS, CHUNK = 32, 64

def pack(bits):
    """bits[y][x] true where ink. -> 2048 bytes, big-endian u32 words."""
    words = [0] * (W * H // 32)
    for y in range(H):
        for x in range(W):
            if bits[y][x]:
                i = x + y * W
                words[i >> 5] |= 1 << (i & 31)
    return b"".join(struct.pack(">I", w) for w in words)

def from_image(path, invert):
    try:
        from PIL import Image
    except ImportError:
        sys.exit("Pillow needed for image files: pip install pillow (or use --raw)")
    im = Image.open(path).convert("L").resize((W, H))
    px = im.load()
    return [[(px[x, y] < 128) != invert for x in range(W)] for y in range(H)]

def open_port(path):
    fd = os.open(path, os.O_RDWR | os.O_NOCTTY | os.O_NONBLOCK)
    i, o, c, l, isp, osp, cc = termios.tcgetattr(fd)
    i &= ~(termios.IXON | termios.IXOFF | termios.ICRNL | termios.INLCR | termios.IGNCR)
    o &= ~termios.OPOST
    l &= ~(termios.ICANON | termios.ECHO | termios.ECHOE | termios.ISIG)
    c |= termios.CLOCAL | termios.CREAD
    cc[termios.VMIN] = 0; cc[termios.VTIME] = 0
    termios.tcsetattr(fd, termios.TCSANOW, [i, o, c, l, isp, osp, cc])
    return fd

def talk(fd, line, wait=4.0):
    os.write(fd, line.encode() + b"\r\n")
    got, end = b"", time.time() + wait
    while time.time() < end:
        r, _, _ = select.select([fd], [], [], 0.2)
        if r:
            try: b = os.read(fd, 4096)
            except (BlockingIOError, OSError): continue
            got += b
            if b"OK" in got or b"SUCCESS" in got or b"ERR" in got:
                break
    return got.decode("utf-8", "replace")

def main():
    ap = argparse.ArgumentParser()
    ap.add_argument("image")
    ap.add_argument("-p", "--port", help="default: first /dev/ttyACM*")
    ap.add_argument("--raw", action="store_true", help="input is 2048 packed bytes")
    ap.add_argument("--invert", action="store_true", help="swap ink and paper")
    a = ap.parse_args()

    if a.raw:
        data = open(a.image, "rb").read()
        if len(data) != W * H // 8:
            sys.exit(f"raw input must be {W * H // 8} bytes, got {len(data)}")
    else:
        data = pack(from_image(a.image, a.invert))

    port = a.port or next(iter(sorted(glob.glob("/dev/ttyACM*"))), None)
    if not port:
        sys.exit("no /dev/ttyACM* found - is the badge plugged in and booted?")
    fd = open_port(port)
    print(f"sending {a.image} to {port}")

    talk(fd, "photo put clear")
    for n in range(CHUNKS):
        body = struct.pack(">H", n) + data[n * CHUNK:(n + 1) * CHUNK]
        wire = body + struct.pack(">I", zlib.crc32(body) & 0xFFFFFFFF)
        reply = talk(fd, "photo put " + base64.b64encode(wire).decode())
        if "ERR" in reply:
            sys.exit(f"chunk {n} refused: {reply.strip()}")
        print(f"\r  {n + 1}/{CHUNKS}", end="", flush=True)
    print()
    print("done - the photo is now in the badge's photo list")

main()
"##;

/// The 16-bit big-endian number at `at`.
pub open spec fn be16(d: Seq<u8>, at: int) -> nat {
    (d[at] * 0x100 + d[at + 1]) as nat
}

/// The 32-bit big-endian number at `at`.
pub open spec fn be32(d: Seq<u8>, at: int) -> u32 {
    (d[at] * 0x100_0000 + d[at + 1] * 0x1_0000 + d[at + 2] * 0x100 + d[at + 3]) as u32
}

fn read_be32(d: &[u8], at: usize) -> (w: u32)
    requires
        at + 4 <= d@.len(),
    ensures
        w == be32(d@, at as int),
        w as int == d@[at as int] * 0x100_0000 + d@[at + 1] * 0x1_0000 + d@[at + 2] * 0x100 + d@[
            at + 3
        ],
{
    (d[at] as u32) * 0x100_0000 + (d[at + 1] as u32) * 0x1_0000 + (d[at + 2] as u32) * 0x100 + (
    d[at + 3] as u32)
}

/// How many slots hold a chunk.
pub open spec fn filled_count(slots: Seq<Option<Seq<u8>>>) -> nat
    decreases slots.len(),
{
    if slots.len() == 0 {
        0
    } else {
        filled_count(slots.drop_last()) + if slots.last() is Some {
            1nat
        } else {
            0nat
        }
    }
}

/// The bitmap of a photo whose chunks are all in: word `k` is the big-endian
/// number at byte `4 * (k % 16)` of chunk `k / 16`.
pub open spec fn photo_words(slots: Seq<Option<Seq<u8>>>) -> Seq<u32> {
    Seq::new(
        BITMAP_WORDS as nat,
        |k: int| be32(slots[k / 16]->0, 4 * (k % 16)),
    )
}

/// Whether a received chunk is taken: it decoded to 70 bytes, `crc` (the
/// CRC-32 computed over its first 66 bytes) matches the CRC it carries, and
/// its index names one of the 32 chunks.
pub open spec fn chunk_accepted(decoded: Option<Seq<u8>>, crc: u32) -> bool {
    &&& decoded matches Some(d)
    &&& d.len() == CHUNK_WIRE_SIZE
    &&& crc == be32(d, 66)
    &&& be16(d, 0) < NUM_CHUNKS
}

/// The answer to a chunk that is not taken.
pub open spec fn rejection_text(decoded: Option<Seq<u8>>, crc: u32) -> Seq<char> {
    match decoded {
        Some(d) => if d.len() != CHUNK_WIRE_SIZE {
            "ERR bad chunk"@
        } else if crc != be32(d, 66) {
            "ERR crc"@
        } else {
            "ERR index "@ + decimal(be16(d, 0))
        },
        None => "ERR bad chunk"@,
    }
}

/// The slots after a taken chunk is stored in its slot.
pub open spec fn slots_with_chunk(slots: Seq<Option<Seq<u8>>>, d: Seq<u8>) -> Seq<
    Option<Seq<u8>>,
> {
    slots.update(be16(d, 0) as int, Some(d.subrange(2, 66)))
}

/// The answer while a photo is still incomplete: `OK <received>/32`.
pub open spec fn progress_text(received: nat) -> Seq<char> {
    "OK "@ + decimal(received) + "/"@ + decimal(NUM_CHUNKS as nat)
}

/// What the command does with one chunk.
pub enum PutStep {
    /// Answer with this line.
    Reply(String),
    /// The photo is complete: store these bytes, then answer by [`stored_reply`].
    Store(Vec<u8>),
}

/// What becomes of a chunk: `old` and `new` are the slots before and after,
/// `r` is the step taken.
pub open spec fn chunk_step(
    old: Seq<Option<Seq<u8>>>,
    new: Seq<Option<Seq<u8>>>,
    decoded: Option<Seq<u8>>,
    crc: u32,
    r: PutStep,
) -> bool {
    if !chunk_accepted(decoded, crc) {
        &&& new == old
        &&& r matches PutStep::Reply(t) && t@ == rejection_text(decoded, crc)
    } else {
        let slots = slots_with_chunk(old, decoded->0);
        if filled_count(slots) == NUM_CHUNKS {
            &&& new == Seq::new(NUM_CHUNKS as nat, |i: int| None::<Seq<u8>>)
            &&& r matches PutStep::Store(b) && b@ == words_native_bytes(photo_words(slots))
        } else {
            &&& new == slots
            &&& r matches PutStep::Reply(t) && t@ == progress_text(filled_count(slots))
        }
    }
}

/// The CRC-32 that `put` computes over the first 66 bytes of a 70-byte chunk
/// (0 for anything else, which is refused before the CRC is looked at).
pub open spec fn head_crc(decoded: Option<Seq<u8>>) -> u32 {
    match decoded {
        Some(d) => if d.len() == CHUNK_WIRE_SIZE {
            crc32_ieee(d.take(66))
        } else {
            0
        },
        None => 0,
    }
}

/// The chunks of a photo being sent to the badge.
pub struct Photo {
    /// Chunks received so far, indexed by chunk number.
    chunks: Vec<Option<[u8; 64]>>,
    received: usize,
}

impl View for Photo {
    type V = Seq<Option<Seq<u8>>>;

    /// The slots: for each chunk number, the 64 data bytes received, if any.
    closed spec fn view(&self) -> Seq<Option<Seq<u8>>> {
        self.chunks@.map_values(
            |c: Option<[u8; 64]>|
                match c {
                    Some(a) => Some(a@),
                    None => None,
                },
        )
    }
}

proof fn lemma_filled_count_update(s: Seq<Option<Seq<u8>>>, i: int, x: Seq<u8>)
    requires
        0 <= i < s.len(),
    ensures
        filled_count(s.update(i, Some(x))) == filled_count(s) + if s[i] is None {
            1nat
        } else {
            0nat
        },
    decreases s.len(),
{
    if i < s.len() - 1 {
        lemma_filled_count_update(s.drop_last(), i, x);
        assert(s.update(i, Some(x)).drop_last() =~= s.drop_last().update(i, Some(x)));
    } else {
        assert(s.update(i, Some(x)).drop_last() =~= s.drop_last());
    }
}

proof fn lemma_filled_count_bound(s: Seq<Option<Seq<u8>>>)
    ensures
        filled_count(s) <= s.len(),
        filled_count(s) == s.len() ==> forall|i: int| 0 <= i < s.len() ==> #[trigger] s[i] is Some,
    decreases s.len(),
{
    if s.len() > 0 {
        lemma_filled_count_bound(s.drop_last());
        if filled_count(s) == s.len() {
            assert forall|i: int| 0 <= i < s.len() implies #[trigger] s[i] is Some by {
                if i < s.len() - 1 {
                    assert(s[i] == s.drop_last()[i]);
                }
            }
        }
    }
}

proof fn lemma_filled_count_none(n: nat)
    ensures
        filled_count(Seq::new(n, |i: int| None::<Seq<u8>>)) == 0,
    decreases n,
{
    if n > 0 {
        lemma_filled_count_none((n - 1) as nat);
        assert(Seq::new(n, |i: int| None::<Seq<u8>>).drop_last() =~= Seq::new(
            (n - 1) as nat,
            |i: int| None::<Seq<u8>>,
        ));
    }
}

impl Photo {
    /// The photo is consistent: 32 slots, and `received` counts the full ones.
    pub closed spec fn wf(&self) -> bool {
        &&& self.chunks@.len() == NUM_CHUNKS
        &&& self.received == filled_count(self@)
        &&& self.received < NUM_CHUNKS
    }

    /// Every consistent photo (and so every photo that [`Photo::new`] and the
    /// methods after it leave) has 32 slots, fewer than 32 of them full: the
    /// moment the last one fills, the photo is handed out and the slots emptied.
    pub proof fn slots_and_fill(&self)
        requires
            self.wf(),
        ensures
            self@.len() == NUM_CHUNKS,
            filled_count(self@) < NUM_CHUNKS,
    {
    }

    /// No chunk received yet.
    pub fn new() -> (p: Self)
        ensures
            p.wf(),
            p@.len() == NUM_CHUNKS,
            filled_count(p@) == 0,
            p@ == Seq::new(NUM_CHUNKS as nat, |i: int| None::<Seq<u8>>),
    {
        let mut chunks: Vec<Option<[u8; 64]>> = Vec::new();
        let mut i: usize = 0;
        while i < NUM_CHUNKS
            invariant
                i <= NUM_CHUNKS,
                chunks@.len() == i,
                forall|j: int| 0 <= j < i ==> chunks@[j] is None,
            decreases NUM_CHUNKS - i,
        {
            chunks.push(None);
            i = i + 1;
        }
        let p = Photo { chunks, received: 0 };
        proof {
            assert(p@ =~= Seq::new(NUM_CHUNKS as nat, |i: int| None::<Seq<u8>>));
            lemma_filled_count_none(NUM_CHUNKS as nat);
        }
        p
    }

    /// How many chunks are in.
    pub fn received(&self) -> (n: usize)
        requires
            self.wf(),
        ensures
            n == filled_count(self@),
    {
        self.received
    }

    /// Discards a half-sent photo.
    pub fn clear(&mut self)
        requires
            old(self)@.len() == NUM_CHUNKS,
        ensures
            final(self).wf(),
            final(self)@.len() == NUM_CHUNKS,
            filled_count(final(self)@) < NUM_CHUNKS,
            final(self)@ == Seq::new(NUM_CHUNKS as nat, |i: int| None::<Seq<u8>>),
    {
        assert(self.chunks@.len() == self@.len());
        let mut i: usize = 0;
        while i < self.chunks.len()
            invariant
                i <= self.chunks@.len() == NUM_CHUNKS,
                forall|j: int| 0 <= j < i ==> self.chunks@[j] is None,
            decreases NUM_CHUNKS - i,
        {
            self.chunks.set(i, None);
            i = i + 1;
        }
        self.received = 0;
        proof {
            assert(self@ =~= Seq::new(NUM_CHUNKS as nat, |i: int| None::<Seq<u8>>));
            lemma_filled_count_none(NUM_CHUNKS as nat);
        }
    }

    /// The photo as 512 words, each four bytes of it read big-endian, in order.
    pub fn to_bitmap(&self) -> (bitmap: [u32; 512])
        requires
            self@.len() == NUM_CHUNKS,
            forall|i: int| 0 <= i < NUM_CHUNKS ==> #[trigger] self@[i] is Some,
        ensures
            bitmap@ == photo_words(self@),
    {
        let mut bitmap = [0u32; 512];
        let mut i: usize = 0;
        while i < NUM_CHUNKS
            invariant
                i <= NUM_CHUNKS,
                self@.len() == NUM_CHUNKS,
                forall|j: int| 0 <= j < NUM_CHUNKS ==> #[trigger] self@[j] is Some,
                forall|k: int| 0 <= k < i * 16 ==> #[trigger] bitmap@[k] == photo_words(self@)[k],
            decreases NUM_CHUNKS - i,
        {
            let data: [u8; 64] = match self.chunks[i] {
                Some(d) => d,
                None => {
                    assert(self@[i as int] is Some);
                    [0u8; 64]
                },
            };
            assert(self@[i as int] == Some(data@));
            let base: usize = i * 16;
            let mut w: usize = 0;
            while w < 16
                invariant
                    i < NUM_CHUNKS,
                    base == i * 16,
                    w <= 16,
                    self@[i as int] == Some(data@),
                    forall|k: int| 0 <= k < base + w ==> #[trigger] bitmap@[k] == photo_words(
                        self@,
                    )[k],
                decreases 16 - w,
            {
                let o: usize = w * 4;
                bitmap[base + w] = read_be32(&data, o);
                proof {
                    let k = base + w;
                    assert(k / 16 == i && k % 16 == w) by (nonlinear_arith)
                        requires
                            k == i * 16 + w,
                            w < 16,
                    ;
                }
                w = w + 1;
            }
            i = i + 1;
        }
        assert(bitmap@ =~= photo_words(self@));
        bitmap
    }

    /// Stores a chunk that base64-decoded to `decoded` and whose first 66 bytes
    /// have CRC-32 `crc`: refused unless it is 70 bytes, carries that CRC and
    /// names one of the 32 chunks; otherwise it fills its slot (replacing a
    /// chunk sent before under the same index). When the last missing chunk
    /// arrives, the photo is handed out as bytes to store and the slots are
    /// emptied for the next photo.
    pub fn accept_chunk(&mut self, decoded: Option<Vec<u8>>, crc: u32) -> (r: PutStep)
        requires
            old(self).wf(),
        ensures
            final(self).wf(),
            final(self)@.len() == NUM_CHUNKS,
            filled_count(final(self)@) < NUM_CHUNKS,
            chunk_step(
                old(self)@,
                final(self)@,
                match decoded {
                    Some(v) => Some(v@),
                    None => None,
                },
                crc,
                r,
            ),
    {
        let d = match decoded {
            Some(d) => d,
            None => {
                let mut t = String::new();
                push_str(&mut t, "ERR bad chunk");
                return PutStep::Reply(t);
            },
        };
        if d.len() != CHUNK_WIRE_SIZE {
            let mut t = String::new();
            push_str(&mut t, "ERR bad chunk");
            return PutStep::Reply(t);
        }
        let index: usize = (d[0] as usize) * 0x100 + (d[1] as usize);
        let want: u32 = read_be32(d.as_slice(), 66);
        if crc != want {
            let mut t = String::new();
            push_str(&mut t, "ERR crc");
            return PutStep::Reply(t);
        }
        if index >= NUM_CHUNKS {
            let mut t = String::new();
            push_str(&mut t, "ERR index ");
            push_decimal(&mut t, index as u64);
            return PutStep::Reply(t);
        }
        let mut data = [0u8; 64];
        let mut j: usize = 0;
        while j < CHUNK_DATA_SIZE
            invariant
                j <= CHUNK_DATA_SIZE,
                d@.len() == CHUNK_WIRE_SIZE,
                forall|k: int| 0 <= k < j ==> #[trigger] data@[k] == d@[k + 2],
            decreases CHUNK_DATA_SIZE - j,
        {
            data[j] = d[j + 2];
            j = j + 1;
        }
        assert(data@ =~= d@.subrange(2, 66));
        let ghost before = self@;
        let was_empty = self.chunks[index].is_none();
        self.chunks.set(index, Some(data));
        proof {
            assert(self@ =~= before.update(index as int, Some(data@)));
            lemma_filled_count_update(before, index as int, data@);
            lemma_filled_count_bound(self@);
        }
        if was_empty {
            self.received = self.received + 1;
        }
        assert(self@ == slots_with_chunk(before, d@));
        if self.received == NUM_CHUNKS {
            proof {
                lemma_filled_count_bound(self@);
            }
            let words = self.to_bitmap();
            let bytes = words_as_bytes(words.as_slice());
            self.clear();
            PutStep::Store(bytes)
        } else {
            let mut t = String::new();
            push_str(&mut t, "OK ");
            push_decimal(&mut t, self.received as u64);
            push_str(&mut t, "/");
            push_decimal(&mut t, NUM_CHUNKS as u64);
            PutStep::Reply(t)
        }
    }

    /// `photo put <arg>`: `clear` discards a half-sent photo; anything else is
    /// a base64 chunk, decoded with the standard alphabet and checked against
    /// the CRC-32 of its first 66 bytes before [`Photo::accept_chunk`] takes it.
    pub fn put(&mut self, arg: &str) -> (r: PutStep)
        requires
            old(self).wf(),
        ensures
            final(self).wf(),
            final(self)@.len() == NUM_CHUNKS,
            filled_count(final(self)@) < NUM_CHUNKS,
            arg@ == "clear"@ ==> final(self)@ == Seq::new(NUM_CHUNKS as nat, |i: int| None::<Seq<u8>>),
            arg@ == "clear"@ ==> (r matches PutStep::Reply(t) && t@ == "CLEAR"@),
            arg@ != "clear"@ ==> chunk_step(
                old(self)@,
                final(self)@,
                base64_standard_decoding(arg.spec_bytes()),
                head_crc(base64_standard_decoding(arg.spec_bytes())),
                r,
            ),
    {
        let a = chars_of(arg);
        let c = chars_of("clear");
        if chars_equal(&a, &c) {
            self.clear();
            let mut t = String::new();
            push_str(&mut t, "CLEAR");
            return PutStep::Reply(t);
        }
        let decoded = base64_decode(arg.as_bytes());
        let crc: u32 = match &decoded {
            Some(d) => if d.len() == CHUNK_WIRE_SIZE {
                let mut head: Vec<u8> = Vec::new();
                let mut j: usize = 0;
                while j < 66
                    invariant
                        j <= 66,
                        d@.len() == CHUNK_WIRE_SIZE,
                        head@ == d@.take(j as int),
                    decreases 66 - j,
                {
                    head.push(d[j]);
                    j = j + 1;
                    assert(head@ =~= d@.take(j as int));
                }
                crc32(head.as_slice())
            } else {
                0
            },
            None => 0,
        };
        self.accept_chunk(decoded, crc)
    }
}

/// The answer once a complete photo has been stored under `key`, or could
/// not be stored.
pub fn stored_reply(key: Option<String>) -> (t: String)
    ensures
        match key {
            Some(k) => t@ == "SUCCESS stored as "@ + k@,
            None => t@ == "ERR photo store full"@,
        },
{
    let mut t = String::new();
    match key {
        Some(k) => {
            push_str(&mut t, "SUCCESS stored as ");
            push_str(&mut t, k.as_str());
        },
        None => push_str(&mut t, "ERR photo store full"),
    }
    t
}

/// A chunk as the uploader puts it on the wire: the index in two bytes, the
/// 64 data bytes, and the CRC-32 of those 66 bytes in four, all big-endian.
pub open spec fn wire_chunk(index: nat, data: Seq<u8>) -> Seq<u8> {
    let head = seq![(index / 0x100) as u8, (index % 0x100) as u8] + data;
    let crc = crc32_ieee(head);
    head + seq![(crc / 0x100_0000) as u8, ((crc / 0x1_0000) % 0x100) as u8, ((crc / 0x100) % 0x100) as u8, (crc % 0x100) as u8]
}

/// Whatever the uploader sends for chunk `index` (of the 32) with 64 data
/// bytes is taken, and fills slot `index` with exactly those bytes.
pub proof fn wire_chunk_is_taken(slots: Seq<Option<Seq<u8>>>, index: nat, data: Seq<u8>)
    requires
        index < NUM_CHUNKS,
        data.len() == CHUNK_DATA_SIZE,
    ensures
        chunk_accepted(Some(wire_chunk(index, data)), head_crc(Some(wire_chunk(index, data)))),
        slots_with_chunk(slots, wire_chunk(index, data)) == slots.update(index as int, Some(data)),
{
    let head = seq![(index / 0x100) as u8, (index % 0x100) as u8] + data;
    let crc = crc32_ieee(head);
    let w = wire_chunk(index, data);
    assert(w.take(66) =~= head);
    assert(w.subrange(2, 66) =~= data);
    assert(w[0] == (index / 0x100) as u8 && w[1] == (index % 0x100) as u8);
    assert(be16(w, 0) == index);
    let c: u32 = crc;
    assert(w[66] == (c / 0x100_0000) as u8 && w[67] == ((c / 0x1_0000) % 0x100) as u8);
    assert(w[68] == ((c / 0x100) % 0x100) as u8 && w[69] == (c % 0x100) as u8);
    assert(((c / 0x100_0000) as u8) * 0x100_0000 + (((c / 0x1_0000) % 0x100) as u8) * 0x1_0000
        + (((c / 0x100) % 0x100) as u8) * 0x100 + ((c % 0x100) as u8) == c) by (bit_vector);
    assert(be32(w, 66) == c);
}

/// Sending a chunk again with the same index replaces it without counting it
/// twice: the count grows only when a slot fills for the first time.
pub proof fn resent_chunk_counts_once(slots: Seq<Option<Seq<u8>>>, d: Seq<u8>, e: Seq<u8>)
    requires
        slots.len() == NUM_CHUNKS,
        d.len() == CHUNK_WIRE_SIZE,
        e.len() == CHUNK_WIRE_SIZE,
        be16(d, 0) < NUM_CHUNKS,
        be16(e, 0) == be16(d, 0),
    ensures
        filled_count(slots_with_chunk(slots_with_chunk(slots, d), e)) == filled_count(
            slots_with_chunk(slots, d),
        ),
        filled_count(slots_with_chunk(slots, d)) == filled_count(slots) + if slots[be16(d, 0) as int] is None {
            1nat
        } else {
            0nat
        },
{
    let i = be16(d, 0) as int;
    lemma_filled_count_update(slots, i, d.subrange(2, 66));
    lemma_filled_count_update(slots_with_chunk(slots, d), i, e.subrange(2, 66));
}

/// The 64 bytes of chunk `n` of a photo's 2048 bytes.
pub open spec fn photo_chunk(d: Seq<u8>, n: int) -> Seq<u8> {
    d.subrange(64 * n, 64 * n + 64)
}

/// The slots once the chunks `order[..j]` of photo `d` have been sent.
pub open spec fn uploaded_slots(order: Seq<nat>, d: Seq<u8>, j: int) -> Seq<Option<Seq<u8>>> {
    Seq::new(
        NUM_CHUNKS as nat,
        |i: int|
            if order.take(j).contains(i as nat) {
                Some(photo_chunk(d, i))
            } else {
                None
            },
    )
}

/// The words the uploader packs a photo into: word `k` is bytes `4k..4k+4`
/// read big-endian.
pub open spec fn packed_words(d: Seq<u8>) -> Seq<u32> {
    Seq::new(BITMAP_WORDS as nat, |k: int| be32(d, 4 * k))
}

/// Word `k` of `bytes` (bytes `4k..4k+4`) read in the machine's own byte
/// order, as the stored photo is read back.
pub open spec fn native_word(bytes: Seq<u8>, k: int) -> u32 {
    match vstd::endian::endianness() {
        vstd::endian::Endian::Little => (bytes[4 * k] + bytes[4 * k + 1] * 0x100 + bytes[4 * k + 2]
            * 0x1_0000 + bytes[4 * k + 3] * 0x100_0000) as u32,
        vstd::endian::Endian::Big => be32(bytes, 4 * k),
    }
}

/// `bytes` read back as words in the machine's own byte order.
pub open spec fn native_words(bytes: Seq<u8>) -> Seq<u32> {
    Seq::new(bytes.len() / 4, |k: int| native_word(bytes, k))
}

proof fn lemma_word_from_bytes(w: u32)
    ensures
        w == byte_of(w, 0) + byte_of(w, 1) * 0x100 + byte_of(w, 2) * 0x1_0000 + byte_of(w, 3)
            * 0x100_0000,
{
    assert(w == w % 0x100 + ((w / 0x100) % 0x100) * 0x100 + ((w / 0x1_0000) % 0x100) * 0x1_0000 + (w
        / 0x100_0000) * 0x100_0000) by (nonlinear_arith);
    assert(w / 0x100_0000 < 0x100) by (nonlinear_arith);
}

/// What is stored reads back: words laid out in the machine's byte order, read
/// back in that order, are the same words.
pub proof fn stored_words_read_back(words: Seq<u32>)
    ensures
        native_words(words_native_bytes(words)) == words,
{
    let b = words_native_bytes(words);
    assert(b.len() == words.len() * 4);
    assert(b.len() / 4 == words.len()) by (nonlinear_arith)
        requires
            b.len() == words.len() * 4,
    ;
    assert forall|k: int| 0 <= k < words.len() implies #[trigger] native_words(b)[k] == words[k] by {
        let w = words[k];
        lemma_word_from_bytes(w);
        assert(0 <= 4 * k && 4 * k + 3 < b.len()) by (nonlinear_arith)
            requires
                0 <= k < words.len(),
                b.len() == words.len() * 4,
        ;
        assert((4 * k) / 4 == k && (4 * k + 1) / 4 == k && (4 * k + 2) / 4 == k && (4 * k + 3) / 4 == k);
        assert((4 * k) % 4 == 0 && (4 * k + 1) % 4 == 1 && (4 * k + 2) % 4 == 2 && (4 * k + 3) % 4 == 3);
    }
    assert(native_words(b) =~= words);
}

/// Whether `order` sends each of the 32 chunks exactly once.
pub open spec fn is_chunk_order(order: Seq<nat>) -> bool {
    &&& order.len() == NUM_CHUNKS
    &&& forall|i: int| 0 <= i < order.len() ==> #[trigger] order[i] < NUM_CHUNKS
    &&& forall|i: int, j: int| 0 <= i < j < order.len() ==> order[i] != order[j]
}

proof fn lemma_upload_step(order: Seq<nat>, d: Seq<u8>, j: int)
    requires
        is_chunk_order(order),
        d.len() == PHOTO_BYTES,
        0 <= j < NUM_CHUNKS,
    ensures
        slots_with_chunk(uploaded_slots(order, d, j), wire_chunk(order[j], photo_chunk(d, order[j] as int)))
            == uploaded_slots(order, d, j + 1),
        uploaded_slots(order, d, j)[order[j] as int] is None,
{
    let n = order[j];
    let before = uploaded_slots(order, d, j);
    wire_chunk_is_taken(before, n, photo_chunk(d, n as int));
    assert(order.take(j + 1) =~= order.take(j).push(n));
    if order.take(j).contains(n) {
        let k = choose|k: int| 0 <= k < order.take(j).len() && #[trigger] order.take(j)[k] == n;
        assert(order[k] == order[j]);
    }
    assert forall|i: int| 0 <= i < NUM_CHUNKS implies #[trigger] order.take(j + 1).contains(i as nat)
        == (order.take(j).contains(i as nat) || i == n) by {
        if order.take(j + 1).contains(i as nat) {
            let k = choose|k: int| 0 <= k < order.take(j + 1).len() && #[trigger] order.take(j + 1)[k] == i as nat;
            if k < j {
                assert(order.take(j)[k] == i as nat);
            }
        }
        if order.take(j).contains(i as nat) {
            let k = choose|k: int| 0 <= k < order.take(j).len() && #[trigger] order.take(j)[k] == i as nat;
            assert(order.take(j + 1)[k] == i as nat);
        }
        if i == n {
            assert(order.take(j + 1)[j] == n);
        }
    }
    assert(before.update(n as int, Some(photo_chunk(d, n as int))) =~= uploaded_slots(order, d, j + 1));
}

proof fn lemma_upload_count(order: Seq<nat>, d: Seq<u8>, j: int)
    requires
        is_chunk_order(order),
        d.len() == PHOTO_BYTES,
        0 <= j <= NUM_CHUNKS,
    ensures
        filled_count(uploaded_slots(order, d, j)) == j,
    decreases j,
{
    if j == 0 {
        assert(uploaded_slots(order, d, 0) =~= Seq::new(NUM_CHUNKS as nat, |i: int| None::<Seq<u8>>));
        lemma_filled_count_none(NUM_CHUNKS as nat);
    } else {
        lemma_upload_count(order, d, j - 1);
        lemma_upload_step(order, d, j - 1);
        let n = order[j - 1];
        lemma_filled_count_update(uploaded_slots(order, d, j - 1), n as int, photo_chunk(d, n as int));
        assert(uploaded_slots(order, d, j - 1).update(n as int, Some(photo_chunk(d, n as int)))
            == slots_with_chunk(uploaded_slots(order, d, j - 1), wire_chunk(n, photo_chunk(d, n as int))));
    }
}

/// What the uploader sends is what the badge stores: whatever order it sends
/// the 32 chunks of photo `d` in (each once), every chunk is taken and fills
/// its slot, the count grows by one each time (so the first 31 are answered
/// `OK 1/32` .. `OK 31/32`), and with the last one the photo is handed out as
/// exactly the words the uploader packed: the bytes handed out to be stored,
/// read back as words in the machine's byte order, are those words.
pub proof fn uploaded_photo_is_stored(order: Seq<nat>, d: Seq<u8>)
    requires
        is_chunk_order(order),
        d.len() == PHOTO_BYTES,
    ensures
        uploaded_slots(order, d, 0) == Seq::new(NUM_CHUNKS as nat, |i: int| None::<Seq<u8>>),
        forall|j: int|
            0 <= j < NUM_CHUNKS ==> {
                let w = #[trigger] wire_chunk(order[j], photo_chunk(d, order[j] as int));
                &&& chunk_accepted(Some(w), head_crc(Some(w)))
                &&& slots_with_chunk(uploaded_slots(order, d, j), w) == uploaded_slots(order, d, j + 1)
                &&& filled_count(uploaded_slots(order, d, j + 1)) == j + 1
            },
        photo_words(uploaded_slots(order, d, NUM_CHUNKS as int)) == packed_words(d),
        ({
            let last = wire_chunk(order[31], photo_chunk(d, order[31] as int));
            forall|new: Seq<Option<Seq<u8>>>, r: PutStep|
                #[trigger] chunk_step(uploaded_slots(order, d, 31), new, Some(last), head_crc(Some(last)), r)
                    ==> (r matches PutStep::Store(b) && native_words(b@) == packed_words(d))
        }),
{
    assert(uploaded_slots(order, d, 0) =~= Seq::new(NUM_CHUNKS as nat, |i: int| None::<Seq<u8>>));
    assert forall|j: int| 0 <= j < NUM_CHUNKS implies {
        let w = #[trigger] wire_chunk(order[j], photo_chunk(d, order[j] as int));
        &&& chunk_accepted(Some(w), head_crc(Some(w)))
        &&& slots_with_chunk(uploaded_slots(order, d, j), w) == uploaded_slots(order, d, j + 1)
        &&& filled_count(uploaded_slots(order, d, j + 1)) == j + 1
    } by {
        lemma_upload_step(order, d, j);
        lemma_upload_count(order, d, j + 1);
        wire_chunk_is_taken(uploaded_slots(order, d, j), order[j], photo_chunk(d, order[j] as int));
    }
    let full = uploaded_slots(order, d, NUM_CHUNKS as int);
    lemma_upload_count(order, d, NUM_CHUNKS as int);
    lemma_filled_count_bound(full);
    assert forall|k: int| 0 <= k < BITMAP_WORDS implies #[trigger] photo_words(full)[k]
        == packed_words(d)[k] by {
        let i = k / 16;
        assert(0 <= i < 32 && 0 <= k % 16 < 16 && 64 * i + 4 * (k % 16) == 4 * k) by (nonlinear_arith)
            requires
                0 <= k < 512,
                i == k / 16,
        ;
        assert(full[i] is Some);
        assert(full[i] == Some(photo_chunk(d, i)));
        let c = photo_chunk(d, i);
        let o = 4 * (k % 16);
        assert(c[o] == d[4 * k] && c[o + 1] == d[4 * k + 1] && c[o + 2] == d[4 * k + 2] && c[o + 3] == d[4 * k + 3]);
    }
    assert(photo_words(full) =~= packed_words(d));
    stored_words_read_back(packed_words(d));
    let last = wire_chunk(order[31], photo_chunk(d, order[31] as int));
    assert(chunk_accepted(Some(last), head_crc(Some(last))));
    assert(slots_with_chunk(uploaded_slots(order, d, 31), last) == full);
    assert(filled_count(full) == NUM_CHUNKS);
}

// ---------------------------------------------------------------------------
// Naming a stored photo
// ---------------------------------------------------------------------------
/// The number in a photo key `photo_<n>`, read as a `u32`, if the key is one.
pub open spec fn photo_number(key: Seq<char>) -> Option<nat> {
    if "photo_"@.is_prefix_of(key) {
        parse_unsigned(key.skip("photo_"@.len() as int), u32::MAX as nat)
    } else {
        None
    }
}

/// The largest photo number among `keys`.
pub open spec fn max_photo_number(keys: Seq<Seq<char>>) -> Option<nat>
    decreases keys.len(),
{
    if keys.len() == 0 {
        None
    } else {
        let rest = max_photo_number(keys.drop_last());
        match photo_number(keys.last()) {
            None => rest,
            Some(n) => match rest {
                None => Some(n),
                Some(m) => Some(if m >= n {
                    m
                } else {
                    n
                }),
            },
        }
    }
}

/// The number of the next photo: one past the largest, or 0.
pub open spec fn next_photo_number(keys: Seq<Seq<char>>) -> nat {
    match max_photo_number(keys) {
        Some(m) => m + 1,
        None => 0,
    }
}

/// The key of photo `n`: `photo_` and the number in at least four digits.
pub open spec fn photo_key(n: nat) -> Seq<char> {
    "photo_"@ + pad_left(decimal(n), 4, '0')
}

/// The keys as character sequences.
pub open spec fn key_views(keys: Seq<String>) -> Seq<Seq<char>> {
    keys.map_values(|k: String| k@)
}

proof fn lemma_max_bounds(keys: Seq<Seq<char>>)
    ensures
        forall|i: int|
            0 <= i < keys.len() ==> (#[trigger] photo_number(keys[i]) matches Some(n) ==> (
            max_photo_number(keys) matches Some(m) && n <= m)),
    decreases keys.len(),
{
    if keys.len() > 0 {
        lemma_max_bounds(keys.drop_last());
        assert forall|i: int| 0 <= i < keys.len() implies (#[trigger] photo_number(
            keys[i],
        ) matches Some(n) ==> (max_photo_number(keys) matches Some(m) && n <= m)) by {
            if i < keys.len() - 1 {
                assert(keys[i] == keys.drop_last()[i]);
            }
        }
    }
}

/// The key of photo `n` reads back as `n`.
pub proof fn photo_key_reads_back(n: nat)
    requires
        n <= u32::MAX,
    ensures
        photo_number(photo_key(n)) == Some(n),
{
    let digits = pad_left(decimal(n), 4, '0');
    decimal_reads_back(n, 4, u32::MAX as nat);
    assert("photo_"@.is_prefix_of(photo_key(n))) by {
        assert(photo_key(n).subrange(0, "photo_"@.len() as int) =~= "photo_"@);
    }
    assert(photo_key(n).skip("photo_"@.len() as int) =~= digits);
}

/// A new photo's key never collides with a stored one: its number is past
/// every stored photo's, so no existing key equals it (a delete cannot lead to
/// reuse), as long as the largest stored number leaves room for one more.
pub proof fn next_photo_key_is_fresh(keys: Seq<Seq<char>>)
    requires
        max_photo_number(keys) != Some(u32::MAX as nat),
    ensures
        photo_number(photo_key(next_photo_number(keys))) == Some(next_photo_number(keys)),
        forall|i: int| 0 <= i < keys.len() ==> (#[trigger] photo_number(keys[i]) matches Some(n)
            ==> n < next_photo_number(keys)),
        forall|i: int| 0 <= i < keys.len() ==> #[trigger] keys[i] != photo_key(
            next_photo_number(keys),
        ),
{
    lemma_max_bounds(keys);
    lemma_max_is_u32(keys);
    photo_key_reads_back(next_photo_number(keys));
}

proof fn lemma_max_is_u32(keys: Seq<Seq<char>>)
    ensures
        max_photo_number(keys) matches Some(m) ==> m <= u32::MAX,
    decreases keys.len(),
{
    if keys.len() > 0 {
        lemma_max_is_u32(keys.drop_last());
    }
}

/// Whether `chars[start..end]` spells `lit`.
fn spells(chars: &Vec<char>, start: usize, end: usize, lit: &str) -> (b: bool)
    requires
        start <= end <= chars@.len(),
    ensures
        b == (chars@.subrange(start as int, end as int) == lit@),
{
    let l = chars_of(lit);
    if end - start != l.len() {
        assert(chars@.subrange(start as int, end as int).len() != lit@.len());
        assert(chars@.subrange(start as int, end as int) != lit@);
        return false;
    }
    let mut i: usize = 0;
    while i < l.len()
        invariant
            start <= end <= chars@.len(),
            end - start == l@.len(),
            l@ == lit@,
            i <= l@.len(),
            forall|j: int| 0 <= j < i ==> chars@[start + j] == l@[j],
        decreases l.len() - i,
    {
        if chars[start + i] != l[i] {
            assert(chars@.subrange(start as int, end as int)[i as int] != l@[i as int]);
            return false;
        }
        i = i + 1;
    }
    assert(chars@.subrange(start as int, end as int) =~= l@);
    true
}

/// The photo number in `key`, if it is a photo key.
fn photo_number_of(key: &String) -> (r: Option<u32>)
    ensures
        match photo_number(key@) {
            Some(n) => r == Some(n as u32),
            None => r is None,
        },
{
    let k = chars_of(key.as_str());
    let p = chars_of("photo_");
    if k.len() < p.len() {
        return None;
    }
    if !spells(&k, 0, p.len(), "photo_") {
        assert(!"photo_"@.is_prefix_of(key@));
        return None;
    }
    assert("photo_"@.is_prefix_of(key@));
    assert(k@.subrange(p.len() as int, k.len() as int) =~= key@.skip("photo_"@.len() as int));
    match parse_unsigned_in(&k, p.len(), k.len(), 0xffff_ffff) {
        Some(v) => Some(v as u32),
        None => None,
    }
}

/// The largest photo number among the keys `existing` (see [`photo_number`]).
pub fn largest_photo_number(existing: &Vec<String>) -> (r: Option<u32>)
    ensures
        match max_photo_number(key_views(existing@)) {
            Some(m) => r == Some(m as u32) && m <= u32::MAX,
            None => r is None,
        },
{
    let ghost keys = key_views(existing@);
    let mut best: Option<u32> = None;
    let mut i: usize = 0;
    while i < existing.len()
        invariant
            i <= existing@.len(),
            keys == key_views(existing@),
            match max_photo_number(keys.take(i as int)) {
                Some(m) => best == Some(m as u32) && m <= u32::MAX,
                None => best is None,
            },
        decreases existing.len() - i,
    {
        let n = photo_number_of(&existing[i]);
        proof {
            assert(keys.take(i + 1).drop_last() =~= keys.take(i as int));
            assert(keys.take(i + 1).last() == existing@[i as int]@);
        }
        match n {
            Some(v) => {
                best = match best {
                    None => Some(v),
                    Some(m) => Some(if m >= v { m } else { v }),
                };
            },
            None => {},
        }
        i = i + 1;
    }
    assert(keys.take(existing@.len() as int) =~= keys);
    best
}

/// The largest photo number that a key of four digits can carry.
pub const LAST_PHOTO_NUMBER: u32 = 9999;

/// Whether `key` is a photo key in the badge's own form: `photo_` and
/// exactly four digits.
pub open spec fn is_four_digit_photo_key(key: Seq<char>) -> bool {
    &&& "photo_"@.is_prefix_of(key)
    &&& key.len() == "photo_"@.len() + 4
    &&& all_digits(key.skip("photo_"@.len() as int))
}

/// A key of the badge's own form sorts before the key of any larger photo
/// number that fits in four digits.
pub proof fn four_digit_keys_sort_by_number(key: Seq<char>, n: nat)
    requires
        is_four_digit_photo_key(key),
        n <= LAST_PHOTO_NUMBER,
        photo_number(key) matches Some(m) && m < n,
    ensures
        lex_le(key, photo_key(n)),
        key != photo_key(n),
        is_four_digit_photo_key(photo_key(n)),
{
    let pre = "photo_"@;
    let x = key.skip(pre.len() as int);
    let y = pad_left(decimal(n), 4, '0');
    assert(key =~= pre + x) by {
        assert(key.subrange(0, pre.len() as int) =~= pre);
    }
    four_digit_value(x);
    assert(is_digit(x[0]) && is_digit(x[1]) && is_digit(x[2]) && is_digit(x[3]));
    assert(x[0] != '+');
    assert(unsigned_body(x) == x);
    assert(photo_number(key) == Some(digits_value(x)));
    four_digit_decimal(n);
    four_digit_order(x, y);
    lemma_lex_common_prefix(pre, x, y);
    assert(photo_key(n).skip(pre.len() as int) =~= y);
    assert(pre.is_prefix_of(photo_key(n))) by {
        assert(photo_key(n).subrange(0, pre.len() as int) =~= pre);
    }
    assert((pre + x).skip(pre.len() as int) =~= x);
}

/// The key for a newly sent photo among the stored keys `existing`: `None`
/// when 32 photos are stored already, or when the next number would need more
/// than four digits; else `photo_` and one past the largest stored photo
/// number, in four digits (`photo_0000` when there is none). The photos list
/// is ordered by key: the new key sorts after every stored key of that form,
/// and numbering this way never reuses a key, even after a delete.
pub fn next_photo_key(existing: &Vec<String>) -> (r: Option<String>)
    ensures
        existing@.len() >= PHOTO_CAP ==> r is None,
        existing@.len() < PHOTO_CAP && next_photo_number(key_views(existing@))
            <= LAST_PHOTO_NUMBER ==> (r matches Some(k) && k@ == photo_key(
            next_photo_number(key_views(existing@)),
        )),
        next_photo_number(key_views(existing@)) > LAST_PHOTO_NUMBER ==> r is None,
        r matches Some(k) ==> is_four_digit_photo_key(k@),
        r matches Some(k) ==> forall|i: int| 0 <= i < existing@.len() ==> #[trigger] existing@[i]@
            != k@,
        r matches Some(k) ==> forall|i: int|
            0 <= i < existing@.len() && is_four_digit_photo_key(#[trigger] existing@[i]@) ==> lex_le(
                existing@[i]@,
                k@,
            ),
{
    let ghost keys = key_views(existing@);
    let best = largest_photo_number(existing);
    if existing.len() >= PHOTO_CAP {
        return None;
    }
    let next: u32 = match best {
        Some(m) => {
            if m >= LAST_PHOTO_NUMBER {
                return None;
            }
            m + 1
        },
        None => 0,
    };
    let mut key = String::new();
    push_str(&mut key, "photo_");
    push_padded_decimal(&mut key, next as u64, 4, '0');
    proof {
        next_photo_key_is_fresh(keys);
        assert forall|j: int| 0 <= j < existing@.len() implies #[trigger] existing@[j]@ != key@ by {
            assert(keys[j] == existing@[j]@);
        }
        four_digit_decimal(next as nat);
        assert(photo_key(next as nat).skip("photo_"@.len() as int) =~= pad_left(decimal(next as nat), 4, '0'));
        assert("photo_"@.is_prefix_of(photo_key(next as nat))) by {
            assert(photo_key(next as nat).subrange(0, "photo_"@.len() as int) =~= "photo_"@);
        }
        assert forall|j: int|
            0 <= j < existing@.len() && is_four_digit_photo_key(#[trigger] existing@[j]@) implies lex_le(
            existing@[j]@,
            key@,
        ) by {
            assert(keys[j] == existing@[j]@);
            let x = existing@[j]@.skip("photo_"@.len() as int);
            four_digit_value(x);
            assert(is_digit(x[0]) && is_digit(x[1]) && is_digit(x[2]) && is_digit(x[3]));
            assert(x[0] != '+');
            assert(unsigned_body(x) == x);
            assert(photo_number(existing@[j]@) is Some);
            four_digit_keys_sort_by_number(existing@[j]@, next as nat);
        }
    }
    Some(key)
}

// ---------------------------------------------------------------------------
// The command line
// ---------------------------------------------------------------------------
/// What a `photo` command line asks for.
pub enum PhotoCommand {
    /// `photo list`: how many photos are stored.
    List,
    /// `photo get <n>` or `photo ascii <n>`: photo `index`, as a base64 BMP
    /// or, with `as_art`, as ASCII art.
    Get { index: usize, as_art: bool },
    /// `photo get` or `photo ascii` without a readable index.
    NeedIndex { as_art: bool },
    /// `photo script`: print the uploader.
    Script,
    /// `photo put <chunk>` (the chunk is empty when missing).
    Put { chunk: String },
    /// Anything else: the short help.
    Help,
}

/// The index argument, read as `str::parse::<usize>` reads it.
pub open spec fn index_argument(args: Seq<char>) -> Option<nat> {
    match second_token(args) {
        Some(t) => parse_unsigned(t, usize::MAX as nat),
        None => None,
    }
}

/// The characters of the first word that the command line starts with.
fn token_text(chars: &Vec<char>, tok: Option<(usize, usize)>) -> (t: String)
    requires
        tok matches Some((b, e)) ==> b <= e <= chars@.len(),
    ensures
        match tok {
            Some((b, e)) => t@ == chars@.subrange(b as int, e as int),
            None => t@ == Seq::<char>::empty(),
        },
{
    let mut t = String::new();
    if let Some((b, e)) = tok {
        push_chars(&mut t, chars, b, e);
    }
    t
}

/// Reads a `photo` command line: its first word picks the command, its
/// second is the index or the chunk.
pub fn parse_photo_command(args: &str) -> (c: PhotoCommand)
    ensures
        first_token(args@) == Some("list"@) ==> c is List,
        (first_token(args@) == Some("get"@) || first_token(args@) == Some("ascii"@)) ==> match index_argument(args@) {
            Some(i) => (c matches PhotoCommand::Get { index, as_art } && index == i && as_art == (
            first_token(args@) == Some("ascii"@))),
            None => (c matches PhotoCommand::NeedIndex { as_art } && as_art == (first_token(args@)
                == Some("ascii"@))),
        },
        first_token(args@) == Some("script"@) ==> c is Script,
        first_token(args@) == Some("put"@) ==> (c matches PhotoCommand::Put { chunk } && chunk@
            == match second_token(args@) {
            Some(t) => t,
            None => Seq::<char>::empty(),
        }),
        !(first_token(args@) == Some("list"@) || first_token(args@) == Some("get"@) || first_token(
            args@,
        ) == Some("ascii"@) || first_token(args@) == Some("script"@) || first_token(args@) == Some(
            "put"@,
        )) ==> c is Help,
{
    proof {
        reveal_strlit("list");
        reveal_strlit("get");
        reveal_strlit("ascii");
        reveal_strlit("script");
        reveal_strlit("put");
        assert("list"@.len() == 4 && "get"@.len() == 3 && "ascii"@.len() == 5);
        assert("script"@.len() == 6 && "put"@.len() == 3);
        assert("get"@[0] == 'g' && "put"@[0] == 'p');
    }
    let chars = chars_of(args);
    let first = next_token(&chars, 0);
    let (b, e) = match first {
        Some(t) => t,
        None => {
            return PhotoCommand::Help;
        },
    };
    let second = next_token(&chars, e);
    if spells(&chars, b, e, "list") {
        PhotoCommand::List
    } else if spells(&chars, b, e, "get") || spells(&chars, b, e, "ascii") {
        let as_art = spells(&chars, b, e, "ascii");
        let index = match second {
            Some((b2, e2)) => parse_unsigned_in(&chars, b2, e2, usize::MAX as u64),
            None => None,
        };
        match index {
            Some(i) => PhotoCommand::Get { index: i as usize, as_art },
            None => PhotoCommand::NeedIndex { as_art },
        }
    } else if spells(&chars, b, e, "script") {
        PhotoCommand::Script
    } else if spells(&chars, b, e, "put") {
        PhotoCommand::Put { chunk: token_text(&chars, second) }
    } else {
        PhotoCommand::Help
    }
}

/// The answer to `photo list`: the count the vault gave, or its silence.
pub fn list_reply(count: Option<usize>) -> (t: String)
    ensures
        match count {
            Some(n) => t@ == decimal(n as nat) + " photo(s), indices 0.."@ + decimal(
                if n == 0 {
                    0nat
                } else {
                    (n - 1) as nat
                },
            ),
            None => t@ == "ERR no answer from vault"@,
        },
{
    let mut t = String::new();
    match count {
        Some(n) => {
            push_decimal(&mut t, n as u64);
            push_str(&mut t, " photo(s), indices 0..");
            push_decimal(&mut t, n.saturating_sub(1) as u64);
        },
        None => push_str(&mut t, "ERR no answer from vault"),
    }
    t
}

/// The answer to `photo get <index>` or `photo ascii <index>`: the vault
/// answers 1 once the photo is written out, anything else when there is no
/// such photo.
pub fn get_reply(index: usize, answer: Option<usize>) -> (t: String)
    ensures
        match answer {
            Some(a) => if a == 1 {
                t@ == "SUCCESS"@
            } else {
                t@ == "ERR no photo "@ + decimal(index as nat)
            },
            None => t@ == "ERR no answer from vault"@,
        },
{
    let mut t = String::new();
    match answer {
        Some(a) => if a == 1 {
            push_str(&mut t, "SUCCESS");
        } else {
            push_str(&mut t, "ERR no photo ");
            push_decimal(&mut t, index as u64);
        },
        None => push_str(&mut t, "ERR no answer from vault"),
    }
    t
}

/// The answer when `get` or `ascii` has no index.
pub fn need_index_reply(as_art: bool) -> (t: String)
    ensures
        t@ == "ERR need an index: photo "@ + (if as_art {
            "ascii"@
        } else {
            "get"@
        }) + " <n>"@,
{
    let mut t = String::new();
    push_str(&mut t, "ERR need an index: photo ");
    if as_art {
        push_str(&mut t, "ascii");
    } else {
        push_str(&mut t, "get");
    }
    push_str(&mut t, " <n>");
    t
}

/// The answer when the vault cannot be reached at all.
pub fn vault_down_reply() -> (t: String)
    ensures
        t@ == "ERR vault not running"@,
{
    let mut t = String::new();
    push_str(&mut t, "ERR vault not running");
    t
}

/// The short help of the `photo` command.
pub fn photo_help_reply() -> (t: String)
    ensures
        t@ == "photo [list | get <n> | ascii <n> | put <chunk> | put clear | script]"@,
{
    let mut t = String::new();
    push_str(&mut t, "photo [list | get <n> | ascii <n> | put <chunk> | put clear | script]");
    t
}

/// The line that ends a printed script.
pub fn end_of_script_reply() -> (t: String)
    ensures
        t@ == "-- end of script --"@,
{
    let mut t = String::new();
    push_str(&mut t, "-- end of script --");
    t
}

impl Photo {
    /// The command's name.
    pub fn verb() -> (t: &'static str)
        ensures
            t@ == "photo"@,
    {
        "photo"
    }

    /// One line on what the command does.
    pub fn help() -> (t: &'static str)
        ensures
            t@ == "list, fetch and send photos"@,
    {
        "list, fetch and send photos"
    }

    /// How the command is used.
    pub fn usage() -> (t: &'static str)
        ensures
            t@ == "photo list             how many are stored\n    photo get <n>          photo n as a base64 BMP\n    photo ascii <n>        photo n as ASCII art\n    photo put <chunk>      send a photo to the badge, one base64 chunk at a time\n    photo put clear        discard a half-sent photo\n    photo script           print an uploader; photo script > upload_photo.py"@,
    {
        "photo list             how many are stored\n    photo get <n>          photo n as a base64 BMP\n    photo ascii <n>        photo n as ASCII art\n    photo put <chunk>      send a photo to the badge, one base64 chunk at a time\n    photo put clear        discard a half-sent photo\n    photo script           print an uploader; photo script > upload_photo.py"
    }
}

} // verus!
