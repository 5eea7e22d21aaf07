//! `upload`: hands the user the tool for putting things onto the badge.
//!
//! The badge carries its own uploader so nothing has to be found or
//! downloaded first:
//!
//! ```text
//!     upload > upload.py
//!     python3 upload.py
//! ```
//!
//! The script asks what to send if it is not told, so this stays one command
//! however many kinds of thing become uploadable.
use vstd::prelude::*;
use crate::text::{chars_of, push_chars, push_str};

verus! {

/// A self-contained uploader for photos and QR codes.
pub const UPLOAD_SCRIPT: &'static str = r##"#!/usr/bin/env python3
"""Send things to an S-CAM badge over its serial console.

    python3 upload.py                       # asks what you want to send
    python3 upload.py picture.png           # a photo (needs Pillow)
    python3 upload.py --qr https://a.com    # a QR code
    python3 upload.py picture.raw --raw     # 2048 bytes, already packed

Photos are stored 128x128 at one bit per pixel; anything else is scaled to fit and
thresholded, and --invert flips which side of the threshold becomes ink.
"""
import argparse, base64, glob, os, select, struct, sys, termios, time, zlib

W = H = 128
CHUNKS, CHUNK = 32, 64

def pack(bits):
    """bits[y][x] true where ink. -> 2048 bytes, big-endian u32 words."""
    words = [0] * (W * H // 32)
    for y in range(H):
        for x in range(W):
            if bits[y][x]:
                i = x + y * W
                words[i >> 5] |= 1 << (i & 31)
    return b"".join(struct.pack(">I", w) for w in words)

def from_image(path, invert):
    try:
        from PIL import Image
    except ImportError:
        sys.exit("Pillow needed for image files: pip install pillow (or use --raw)")
    im = Image.open(path).convert("L").resize((W, H))
    px = im.load()
    return [[(px[x, y] < 128) != invert for x in range(W)] for y in range(H)]

def open_port(path):
    fd = os.open(path, os.O_RDWR | os.O_NOCTTY | os.O_NONBLOCK)
    i, o, c, l, isp, osp, cc = termios.tcgetattr(fd)
    i &= ~(termios.IXON | termios.IXOFF | termios.ICRNL | termios.INLCR | termios.IGNCR)
    o &= ~termios.OPOST
    l &= ~(termios.ICANON | termios.ECHO | termios.ECHOE | termios.ISIG)
    c |= termios.CLOCAL | termios.CREAD
    cc[termios.VMIN] = 0; cc[termios.VTIME] = 0
    termios.tcsetattr(fd, termios.TCSANOW, [i, o, c, l, isp, osp, cc])
    return fd

def talk(fd, line, wait=4.0):
    os.write(fd, line.encode() + b"\r\n")
    got, end = b"", time.time() + wait
    while time.time() < end:
        r, _, _ = select.select([fd], [], [], 0.2)
        if r:
            try: b = os.read(fd, 4096)
            except (BlockingIOError, OSError): continue
            got += b
            if b"OK" in got or b"SUCCESS" in got or b"ERR" in got:
                break
    return got.decode("utf-8", "replace")

def main():
    ap = argparse.ArgumentParser()
    ap.add_argument("image", nargs="?", help="image file; omit to be asked")
    ap.add_argument("-p", "--port", help="default: first /dev/ttyACM*")
    ap.add_argument("--raw", action="store_true", help="input is 2048 packed bytes")
    ap.add_argument("--invert", action="store_true", help="swap ink and paper")
    ap.add_argument("--qr", metavar="URL", help="save a QR code instead of a photo")
    a = ap.parse_args()

    port = a.port or next(iter(sorted(glob.glob("/dev/ttyACM*"))), None)
    if not port:
        sys.exit("no /dev/ttyACM* found - is the badge plugged in and booted?")

    # Nothing named: ask, rather than printing usage and quitting. The point of this script
    # living on the badge is that it can be run without reading anything first.
    if not a.image and not a.qr:
        print("What do you want to send to the badge?")
        print("  1. a photo")
        print("  2. a QR code")
        choice = input("> ").strip()
        if choice.startswith("2"):
            a.qr = input("URL: ").strip()
        else:
            a.image = input("image file: ").strip()

    if a.qr:
        fd = open_port(port)
        reply = talk(fd, "qr add " + a.qr, 6.0)
        print(reply.strip().splitlines()[-1] if reply.strip() else "no reply")
        return

    if a.raw:
        data = open(a.image, "rb").read()
        if len(data) != W * H // 8:
            sys.exit(f"raw input must be {W * H // 8} bytes, got {len(data)}")
    else:
        data = pack(from_image(a.image, a.invert))

    fd = open_port(port)
    print(f"sending {a.image} to {port}")

    talk(fd, "photo put clear")
    for n in range(CHUNKS):
        body = struct.pack(">H", n) + data[n * CHUNK:(n + 1) * CHUNK]
        wire = body + struct.pack(">I", zlib.crc32(body) & 0xFFFFFFFF)
        reply = talk(fd, "photo put " + base64.b64encode(wire).decode())
        if "ERR" in reply:
            sys.exit(f"chunk {n} refused: {reply.strip()}")
        print(f"\r  {n + 1}/{CHUNKS}", end="", flush=True)
    print()
    print("done - the photo is now in the badge's photo list")

main()
"##;

/// The first position at or after `i` holding a line feed (or the end).
pub open spec fn newline_at_or_after(s: Seq<char>, i: int) -> int
    decreases s.len() - i,
{
    if 0 <= i < s.len() && s[i] != '\n' {
        newline_at_or_after(s, i + 1)
    } else {
        i
    }
}

/// The lines of `s` from position `i` on, as `str::lines` gives them: split at
/// each line feed, a carriage return just before the line feed dropped, and
/// no empty line after a final line feed.
pub open spec fn lines_from(s: Seq<char>, i: int) -> Seq<Seq<char>>
    decreases s.len() - i,
{
    if i < 0 || i >= s.len() {
        Seq::empty()
    } else {
        let e = newline_at_or_after(s, i);
        proof {
            lemma_newline_bounds(s, i);
        }
        if e >= s.len() {
            seq![s.subrange(i, s.len() as int)]
        } else {
            let piece = s.subrange(i, e);
            let line = if piece.len() > 0 && piece.last() == '\r' {
                piece.drop_last()
            } else {
                piece
            };
            proof {
                lemma_newline_bounds(s, i);
            }
            seq![line] + lines_from(s, e + 1)
        }
    }
}

/// The line feed search stays within the text.
pub proof fn lemma_newline_bounds(s: Seq<char>, i: int)
    requires
        0 <= i <= s.len(),
    ensures
        i <= newline_at_or_after(s, i) <= s.len(),
    decreases s.len() - i,
{
    if 0 <= i < s.len() && s[i] != '\n' {
        lemma_newline_bounds(s, i + 1);
    }
}

/// Lines joined back together, a line feed between each two.
pub open spec fn lines_joined(ls: Seq<Seq<char>>) -> Seq<char>
    decreases ls.len(),
{
    if ls.len() == 0 {
        Seq::empty()
    } else if ls.len() == 1 {
        ls[0]
    } else {
        ls[0] + seq!['\n'] + lines_joined(ls.drop_first())
    }
}

/// `s` less its final line feed, if it ends in one.
pub open spec fn without_final_newline(s: Seq<char>) -> Seq<char> {
    if s.len() > 0 && s.last() == '\n' {
        s.drop_last()
    } else {
        s
    }
}

proof fn lemma_newline_found(s: Seq<char>, i: int)
    requires
        0 <= i <= s.len(),
    ensures
        forall|j: int| i <= j < newline_at_or_after(s, i) ==> s[j] != '\n',
        newline_at_or_after(s, i) < s.len() ==> s[newline_at_or_after(s, i)] == '\n',
    decreases s.len() - i,
{
    if 0 <= i < s.len() && s[i] != '\n' {
        lemma_newline_found(s, i + 1);
    }
}

proof fn lemma_lines_from_rejoin(s: Seq<char>, i: int)
    requires
        0 <= i <= s.len(),
        forall|j: int| 0 <= j < s.len() ==> s[j] != '\r',
    ensures
        lines_joined(lines_from(s, i)) == without_final_newline(s.subrange(i, s.len() as int)),
        forall|k: int, j: int|
            0 <= k < lines_from(s, i).len() && 0 <= j < lines_from(s, i)[k].len() ==> #[trigger] lines_from(
                s,
                i,
            )[k][j] != '\n',
    decreases s.len() - i,
{
    if i < s.len() {
        let e = newline_at_or_after(s, i);
        lemma_newline_bounds(s, i);
        lemma_newline_found(s, i);
        let rest = s.subrange(i, s.len() as int);
        if e >= s.len() {
            assert(rest.last() == s[s.len() - 1]);
        } else {
            let piece = s.subrange(i, e);
            assert(!(piece.len() > 0 && piece.last() == '\r'));
            lemma_lines_from_rejoin(s, e + 1);
            let tail = s.subrange(e + 1, s.len() as int);
            assert(rest =~= piece + seq!['\n'] + tail);
            let ls = lines_from(s, i);
            assert(ls == seq![piece] + lines_from(s, e + 1));
            if e + 1 == s.len() {
                assert(lines_from(s, e + 1) =~= Seq::<Seq<char>>::empty());
                assert(ls =~= seq![piece]);
                assert(rest.drop_last() =~= piece);
            } else {
                assert(ls.drop_first() =~= lines_from(s, e + 1));
                assert(tail.len() > 0);
                if tail.last() == '\n' {
                    assert(rest.drop_last() =~= piece + seq!['\n'] + tail.drop_last());
                }
            }
            assert forall|k: int, j: int|
                0 <= k < ls.len() && 0 <= j < ls[k].len() implies #[trigger] ls[k][j] != '\n' by {
                if k > 0 {
                    assert(ls[k] == lines_from(s, e + 1)[k - 1]);
                }
            }
        }
    }
}

/// The lines give back the text: for any text without carriage returns (the
/// script has none), the lines hold no line feed, keep every other character
/// (leading spaces too), and joined with line feeds they are the text less its
/// final line feed. So the printed script, saved to a file, is the script.
pub proof fn lines_give_back_the_text(s: Seq<char>)
    requires
        forall|j: int| 0 <= j < s.len() ==> s[j] != '\r',
    ensures
        lines_joined(lines_from(s, 0)) == without_final_newline(s),
        forall|k: int, j: int|
            0 <= k < lines_from(s, 0).len() && 0 <= j < lines_from(s, 0)[k].len() ==> #[trigger] lines_from(
                s,
                0,
            )[k][j] != '\n',
{
    lemma_lines_from_rejoin(s, 0);
    assert(s.subrange(0, s.len() as int) =~= s);
}

/// The lines of `text`, as `str::lines` splits it.
pub fn lines(text: &str) -> (r: Vec<String>)
    ensures
        r@.map_values(|l: String| l@) == lines_from(text@, 0),
{
    let chars = chars_of(text);
    let mut out: Vec<String> = Vec::new();
    let mut i: usize = 0;
    while i < chars.len()
        invariant
            i <= chars@.len(),
            chars@ == text@,
            out@.map_values(|l: String| l@) + lines_from(chars@, i as int) == lines_from(chars@, 0),
        decreases chars.len() - i,
    {
        let mut e: usize = i;
        while e < chars.len() && chars[e] != '\n'
            invariant
                i <= e <= chars@.len(),
                newline_at_or_after(chars@, i as int) == newline_at_or_after(chars@, e as int),
            decreases chars.len() - e,
        {
            e = e + 1;
        }
        let mut line = String::new();
        let end: usize = if e < chars.len() && e > i && chars[e - 1] == '\r' {
            e - 1
        } else {
            e
        };
        push_chars(&mut line, &chars, i, end);
        let ghost before = out@.map_values(|l: String| l@);
        out.push(line);
        proof {
            assert(out@.map_values(|l: String| l@) =~= before.push(line@));
            let piece = chars@.subrange(i as int, e as int);
            if e < chars@.len() && e > i && chars@[e - 1] == '\r' {
                assert(piece.drop_last() =~= chars@.subrange(i as int, end as int));
            }
            assert(lines_from(chars@, i as int) =~= seq![line@] + lines_from(chars@, e + 1));
            assert(before + lines_from(chars@, i as int) =~= before.push(line@) + lines_from(chars@, e + 1));
        }
        i = if e < chars.len() {
            e + 1
        } else {
            e
        };
    }
    assert(lines_from(chars@, i as int) =~= Seq::<Seq<char>>::empty());
    assert(out@.map_values(|l: String| l@) =~= lines_from(chars@, 0));
    out
}

/// Whether the printer pauses after line `n` (counting from 0): after every
/// eighth line, so that the serial buffer never overruns and loses the start
/// of the script.
pub fn pause_after_line(n: usize) -> (p: bool)
    ensures
        p == (n % 8 == 7),
{
    n % 8 == 7
}

/// The line printed after the script.
pub fn end_reply() -> (t: String)
    ensures
        t@ == "-- end of script --"@,
{
    let mut t = String::new();
    push_str(&mut t, "-- end of script --");
    t
}

/// The `upload` command.
pub struct Upload {}

impl Upload {
    /// The command.
    pub fn new() -> (u: Self)
        ensures
            u == (Upload {  }),
    {
        Upload {  }
    }

    /// The command's name.
    pub fn verb() -> (t: &'static str)
        ensures
            t@ == "upload"@,
    {
        "upload"
    }

    /// One line on what the command does.
    pub fn help() -> (t: &'static str)
        ensures
            t@ == "print a script for sending things to the badge"@,
    {
        "print a script for sending things to the badge"
    }

    /// How the command is used.
    pub fn usage() -> (t: &'static str)
        ensures
            t@ == "upload > upload.py     save it, then run: python3 upload.py"@,
    {
        "upload > upload.py     save it, then run: python3 upload.py"
    }

    /// The script's lines, printed one at a time with a pause after every
    /// eighth (see [`pause_after_line`]).
    pub fn script_lines(&self) -> (r: Vec<String>)
        ensures
            r@.map_values(|l: String| l@) == lines_from(UPLOAD_SCRIPT@, 0),
    {
        lines(UPLOAD_SCRIPT)
    }
}

} // verus!
