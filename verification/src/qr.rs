//! `qr`: the saved QR codes.
//!
//! ```text
//!   qr list        every saved code, numbered
//!   qr get <n>     the URL of code n on its own, for piping somewhere
//! ```
//!
//! A code is a record in the vault's bookmark dictionary, three lines: url,
//! label, timestamp. Its key is zero-padded hex, so the lexical order of the
//! keys is the order the codes were added. The dictionary also holds the
//! vault's key counter, which is not a code.
use vstd::prelude::*;
use vstd::utf8::{decode_utf8, valid_utf8};
use crate::deps::utf8_text;
use crate::text::{
    lemma_lex_total, lemma_lex_trans, lex_le, lex_sorted,
    chars_of, decimal, first_token, next_token, pad_left, parse_unsigned, parse_unsigned_in,
    push_chars, push_decimal, push_padded_decimal, push_str, second_token,
};

verus! {

broadcast use vstd::seq_lib::group_to_multiset_ensures;

/// The key under which the vault keeps its key counter.
pub const COUNTER_KEY: &'static str = "__counter__";

// ---------------------------------------------------------------------------
// Ordering the keys
// ---------------------------------------------------------------------------
/// Whether `a` comes no later than `b` in lexicographic order.
pub fn lex_less_eq(a: &Vec<char>, b: &Vec<char>) -> (r: bool)
    ensures
        r == lex_le(a@, b@),
{
    let mut i: usize = 0;
    assert(a@.skip(0) =~= a@ && b@.skip(0) =~= b@);
    while i < a.len() && i < b.len() && a[i] == b[i]
        invariant
            i <= a@.len(),
            i <= b@.len(),
            lex_le(a@, b@) == lex_le(a@.skip(i as int), b@.skip(i as int)),
        decreases a.len() - i,
    {
        assert(a@.skip(i as int).drop_first() =~= a@.skip(i + 1));
        assert(b@.skip(i as int).drop_first() =~= b@.skip(i + 1));
        i = i + 1;
    }
    if i == a.len() {
        true
    } else if i == b.len() {
        false
    } else {
        a[i] < b[i]
    }
}

/// The keys as character sequences.
pub open spec fn key_views(keys: Seq<String>) -> Seq<Seq<char>> {
    keys.map_values(|k: String| k@)
}

/// The keys that name codes: all but the counter.
pub open spec fn code_keys(keys: Seq<Seq<char>>) -> Seq<Seq<char>> {
    keys.filter(|k: Seq<char>| k != COUNTER_KEY@)
}

proof fn lemma_insert_multiset(s: Seq<Seq<char>>, pos: int, x: Seq<char>)
    requires
        0 <= pos <= s.len(),
    ensures
        s.insert(pos, x).to_multiset() =~= s.to_multiset().insert(x),
{
    let t = s.insert(pos, x);
    assert(t.remove(pos) =~= s);
    assert(t[pos] == x);
    assert(t.contains(x));
}

/// The keys of the saved codes in `keys` (a dictionary listing), in the order
/// the badge shows them: the counter key left out, the rest sorted.
pub fn bookmark_keys(keys: &Vec<String>) -> (r: Vec<String>)
    ensures
        lex_sorted(key_views(r@)),
        key_views(r@).to_multiset() == code_keys(key_views(keys@)).to_multiset(),
{
    let counter = chars_of(COUNTER_KEY);
    let mut out: Vec<String> = Vec::new();
    let mut cs: Vec<Vec<char>> = Vec::new();
    let ghost kv = key_views(keys@);
    let mut i: usize = 0;
    while i < keys.len()
        invariant
            i <= keys@.len(),
            kv == key_views(keys@),
            counter@ == COUNTER_KEY@,
            cs@.len() == out@.len(),
            forall|j: int| 0 <= j < out@.len() ==> #[trigger] cs@[j]@ == out@[j]@,
            lex_sorted(key_views(out@)),
            key_views(out@).to_multiset() == code_keys(kv.take(i as int)).to_multiset(),
        decreases keys.len() - i,
    {
        let k = chars_of(keys[i].as_str());
        proof {
            assert(kv.take(i + 1) =~= kv.take(i as int).push(kv[i as int]));
            kv.take(i as int).lemma_filter_push(kv[i as int], |k: Seq<char>| k != COUNTER_KEY@);
        }
        if crate::text::chars_equal(&k, &counter) {
            assert(code_keys(kv.take(i + 1)) =~= code_keys(kv.take(i as int)));
        } else {
            let mut pos: usize = 0;
            while pos < cs.len() && lex_less_eq(&cs[pos], &k)
                invariant
                    pos <= cs@.len(),
                    cs@.len() == out@.len(),
                    forall|j: int| 0 <= j < out@.len() ==> #[trigger] cs@[j]@ == out@[j]@,
                    forall|j: int| 0 <= j < pos ==> lex_le(#[trigger] cs@[j]@, k@),
                decreases cs.len() - pos,
            {
                pos = pos + 1;
            }
            let ghost before = key_views(out@);
            proof {
                assert forall|j: int| 0 <= j < pos implies lex_le(#[trigger] before[j], k@) by {
                    assert(cs@[j]@ == before[j]);
                }
                assert forall|j: int| pos <= j < before.len() implies lex_le(
                    k@,
                    #[trigger] before[j],
                ) by {
                    assert(!lex_le(cs@[pos as int]@, k@));
                    lemma_lex_total(cs@[pos as int]@, k@);
                    if j > pos {
                        assert(lex_le(before[pos as int], before[j]));
                        lemma_lex_trans(k@, before[pos as int], before[j]);
                    }
                }
            }
            out.insert(pos, keys[i].clone());
            cs.insert(pos, k);
            proof {
                assert(key_views(out@) =~= before.insert(pos as int, kv[i as int]));
                assert(kv[i as int] == k@);
                lemma_insert_multiset(before, pos as int, k@);
                let after = key_views(out@);
                assert forall|a: int, b: int| 0 <= a < b < after.len() implies lex_le(
                    #[trigger] after[a],
                    #[trigger] after[b],
                ) by {
                    if b < pos {
                        assert(after[a] == before[a] && after[b] == before[b]);
                        assert(lex_le(before[a], before[b]));
                    } else if b == pos {
                        assert(after[a] == before[a] && after[b] == k@);
                        assert(lex_le(before[a], k@));
                    } else if a < pos {
                        assert(after[a] == before[a] && after[b] == before[b - 1]);
                        assert(lex_le(before[a], k@));
                        assert(lex_le(k@, before[b - 1]));
                        lemma_lex_trans(before[a], k@, before[b - 1]);
                    } else if a == pos {
                        assert(after[a] == k@ && after[b] == before[b - 1]);
                        assert(lex_le(k@, before[b - 1]));
                    } else {
                        assert(after[a] == before[a - 1] && after[b] == before[b - 1]);
                        assert(lex_le(before[a - 1], before[b - 1]));
                    }
                }
                assert(code_keys(kv.take(i + 1)) =~= code_keys(kv.take(i as int)).push(
                    kv[i as int],
                ));
            }
        }
        i = i + 1;
    }
    assert(kv.take(keys@.len() as int) =~= kv);
    out
}

// ---------------------------------------------------------------------------
// Reading a record
// ---------------------------------------------------------------------------
/// The first position at or after `i` holding a line feed (or the end).
pub open spec fn line_end(s: Seq<char>, i: int) -> int
    decreases s.len() - i,
{
    if 0 <= i < s.len() && s[i] != '\n' {
        line_end(s, i + 1)
    } else {
        i
    }
}

/// The URL of a code record: its text up to the first line feed.
pub fn first_line(body: &str) -> (url: String)
    ensures
        url@ == body@.take(line_end(body@, 0)),
{
    let chars = chars_of(body);
    let mut e: usize = 0;
    while e < chars.len() && chars[e] != '\n'
        invariant
            e <= chars@.len(),
            line_end(chars@, 0) == line_end(chars@, e as int),
        decreases chars.len() - e,
    {
        e = e + 1;
    }
    let mut url = String::new();
    push_chars(&mut url, &chars, 0, e);
    assert(chars@.subrange(0, e as int) =~= body@.take(e as int));
    url
}

/// The URL of a stored code record `data`: its text up to the first line
/// feed, or `None` when the record is not valid UTF-8 (such a record is left
/// out of the list).
pub fn record_url(data: &[u8]) -> (r: Option<String>)
    ensures
        r is Some <==> valid_utf8(data@),
        r matches Some(u) ==> u@ == decode_utf8(data@).take(line_end(decode_utf8(data@), 0)),
{
    match utf8_text(data) {
        Some(body) => Some(first_line(body)),
        None => None,
    }
}

// ---------------------------------------------------------------------------
// The command line
// ---------------------------------------------------------------------------
/// What a `qr` command line asks for.
#[derive(Clone, Copy, Debug, PartialEq, Eq, Structural)]
pub enum QrCommand {
    /// `qr list`.
    List,
    /// `qr get <n>`.
    Get { index: usize },
    /// `qr get` without a readable index.
    NeedIndex,
    /// Anything else.
    Usage,
}

/// Reads a `qr` command line.
pub fn parse_qr_command(args: &str) -> (c: QrCommand)
    ensures
        first_token(args@) == Some("list"@) ==> c == QrCommand::List,
        first_token(args@) == Some("get"@) ==> c == match second_token(args@) {
            Some(t) => match parse_unsigned(t, usize::MAX as nat) {
                Some(i) => QrCommand::Get { index: i as usize },
                None => QrCommand::NeedIndex,
            },
            None => QrCommand::NeedIndex,
        },
        !(first_token(args@) == Some("list"@) || first_token(args@) == Some("get"@)) ==> c
            == QrCommand::Usage,
{
    proof {
        reveal_strlit("list");
        reveal_strlit("get");
        assert("list"@.len() == 4 && "get"@.len() == 3);
    }
    let chars = chars_of(args);
    let (b, e) = match next_token(&chars, 0) {
        Some(t) => t,
        None => {
            return QrCommand::Usage;
        },
    };
    let l = chars_of("list");
    let g = chars_of("get");
    let mut tok: Vec<char> = Vec::new();
    let mut j: usize = b;
    while j < e
        invariant
            b <= j <= e <= chars@.len(),
            tok@ == chars@.subrange(b as int, j as int),
        decreases e - j,
    {
        tok.push(chars[j]);
        j = j + 1;
        assert(tok@ =~= chars@.subrange(b as int, j as int));
    }
    if crate::text::chars_equal(&tok, &l) {
        QrCommand::List
    } else if crate::text::chars_equal(&tok, &g) {
        match next_token(&chars, e) {
            Some((b2, e2)) => match parse_unsigned_in(&chars, b2, e2, usize::MAX as u64) {
                Some(i) => QrCommand::Get { index: i as usize },
                None => QrCommand::NeedIndex,
            },
            None => QrCommand::NeedIndex,
        }
    } else {
        QrCommand::Usage
    }
}

/// One line of the listing: the number right-aligned in two columns, then the URL.
pub open spec fn listing_line(n: nat, url: Seq<char>) -> Seq<char> {
    "  "@ + pad_left(decimal(n), 2, ' ') + "  "@ + url + "\n"@
}

/// The first `k` lines of the listing.
pub open spec fn listing(urls: Seq<Seq<char>>, k: nat) -> Seq<char>
    decreases k,
{
    if k == 0 {
        Seq::empty()
    } else {
        listing(urls, (k - 1) as nat) + listing_line((k - 1) as nat, urls[k - 1])
    }
}

/// The answer to `qr list` for the saved codes' URLs.
pub fn list_reply(urls: &Vec<String>) -> (t: String)
    ensures
        urls@.len() == 0 ==> t@ == "no saved QR codes"@,
        urls@.len() > 0 ==> t@ == listing(key_views(urls@), urls@.len()) + decimal(
            urls@.len() as nat,
        ) + " code(s)"@,
{
    let mut t = String::new();
    if urls.len() == 0 {
        push_str(&mut t, "no saved QR codes");
        return t;
    }
    let ghost uv = key_views(urls@);
    let mut n: usize = 0;
    while n < urls.len()
        invariant
            n <= urls@.len(),
            uv == key_views(urls@),
            t@ == listing(uv, n as nat),
        decreases urls.len() - n,
    {
        let ghost before = t@;
        push_str(&mut t, "  ");
        push_padded_decimal(&mut t, n as u64, 2, ' ');
        push_str(&mut t, "  ");
        push_str(&mut t, urls[n].as_str());
        push_str(&mut t, "\n");
        assert(uv[n as int] == urls@[n as int]@);
        assert(t@ =~= before + listing_line(n as nat, uv[n as int]));
        n = n + 1;
    }
    push_decimal(&mut t, urls.len() as u64);
    push_str(&mut t, " code(s)");
    t
}

/// The answer to `qr get <index>`: the URL alone, or an error.
pub fn get_reply(index: usize, urls: &Vec<String>) -> (t: String)
    ensures
        index < urls@.len() ==> t@ == urls@[index as int]@,
        index >= urls@.len() ==> t@ == "ERR no code "@ + decimal(index as nat),
{
    let mut t = String::new();
    if index < urls.len() {
        push_str(&mut t, urls[index].as_str());
    } else {
        push_str(&mut t, "ERR no code ");
        push_decimal(&mut t, index as u64);
    }
    t
}

/// The answer to `qr get` without an index.
pub fn need_index_reply() -> (t: String)
    ensures
        t@ == "ERR need an index: qr get <n>"@,
{
    let mut t = String::new();
    push_str(&mut t, "ERR need an index: qr get <n>");
    t
}

/// The answer to anything else.
pub fn usage_reply() -> (t: String)
    ensures
        t@ == "qr [list | get <n>]"@,
{
    let mut t = String::new();
    push_str(&mut t, "qr [list | get <n>]");
    t
}

/// The saved QR codes.
pub struct Qr {}

impl Qr {
    /// The command.
    pub fn new() -> (c: Self)
        ensures
            c == (Qr {  }),
    {
        Qr {  }
    }

    /// The command's name.
    pub fn verb() -> (t: &'static str)
        ensures
            t@ == "qr"@,
    {
        "qr"
    }

    /// One line on what the command does.
    pub fn help() -> (t: &'static str)
        ensures
            t@ == "list and read saved QR codes"@,
    {
        "list and read saved QR codes"
    }

    /// How the command is used.
    pub fn usage() -> (t: &'static str)
        ensures
            t@ == "qr list                every saved code, numbered\n    qr get <n>             the URL of code n on its own"@,
    {
        "qr list                every saved code, numbered\n    qr get <n>             the URL of code n on its own"
    }
}

} // verus!
