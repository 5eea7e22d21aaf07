//! `debug`: one place to ask the badge what state it is in, readable from a
//! terminal without a rebuild.
use vstd::prelude::*;
use vstd::arithmetic::div_mod::lemma_fundamental_div_mod_converse;
use crate::qr::{code_keys, key_views, COUNTER_KEY};
use crate::text::{chars_equal, chars_of, decimal, pad_left, push_decimal, push_padded_decimal, push_str};

verus! {

broadcast use vstd::seq_lib::group_filter_ensures;

/// How many of `keys` (a listing of the bookmark dictionary) are saved codes:
/// all but the vault's key counter.
pub fn bookmark_count(keys: &Vec<String>) -> (n: usize)
    ensures
        n == code_keys(key_views(keys@)).len(),
{
    let counter = chars_of(COUNTER_KEY);
    let ghost kv = key_views(keys@);
    let mut n: usize = 0;
    let mut i: usize = 0;
    while i < keys.len()
        invariant
            i <= keys@.len(),
            kv == key_views(keys@),
            counter@ == COUNTER_KEY@,
            n == code_keys(kv.take(i as int)).len(),
            n <= i,
        decreases keys.len() - i,
    {
        let k = chars_of(keys[i].as_str());
        proof {
            assert(kv.take(i + 1) =~= kv.take(i as int).push(kv[i as int]));
            kv.take(i as int).lemma_filter_push(kv[i as int], |k: Seq<char>| k != COUNTER_KEY@);
            assert(kv[i as int] == k@);
        }
        if !chars_equal(&k, &counter) {
            n = n + 1;
        }
        i = i + 1;
    }
    assert(kv.take(keys@.len() as int) =~= kv);
    n
}

/// The uptime line: hours, then minutes and seconds in two digits.
pub open spec fn uptime_text(up_ms: u64) -> Seq<char> {
    "uptime      "@ + decimal((up_ms / 3_600_000) as nat) + "h "@ + pad_left(
        decimal(((up_ms / 60_000) % 60) as nat),
        2,
        '0',
    ) + "m "@ + pad_left(decimal(((up_ms / 1000) % 60) as nat), 2, '0') + "s"@
}

/// The uptime line reads as the time since boot: whenever `h` hours, `m`
/// minutes (under 60) and `s` seconds (under 60) come to `up_ms` milliseconds
/// to within the current second, the line shows `h` in full (no wrap at a
/// day), then `m` and `s` in two digits.
pub proof fn uptime_reads_as_time(up_ms: u64, h: nat, m: nat, s: nat)
    requires
        m < 60,
        s < 60,
        h * 3_600_000 + m * 60_000 + s * 1000 <= up_ms < h * 3_600_000 + m * 60_000 + s * 1000
            + 1000,
    ensures
        uptime_text(up_ms) == "uptime      "@ + decimal(h) + "h "@ + pad_left(decimal(m), 2, '0')
            + "m "@ + pad_left(decimal(s), 2, '0') + "s"@,
{
    let x = up_ms as int;
    let (hh, mm, ss) = (h as int, m as int, s as int);
    let r = x - (hh * 3_600_000 + mm * 60_000 + ss * 1000);
    assert(hh * 3_600_000 == (hh * 60 + mm) * 60_000 - mm * 60_000) by (nonlinear_arith);
    assert((hh * 60 + mm) * 60_000 == (hh * 3600 + mm * 60) * 1000) by (nonlinear_arith);
    assert((hh * 60 + mm) * 60 == hh * 3600 + mm * 60) by (nonlinear_arith);
    lemma_fundamental_div_mod_converse(x, 3_600_000, hh, mm * 60_000 + ss * 1000 + r);
    lemma_fundamental_div_mod_converse(x, 60_000, hh * 60 + mm, ss * 1000 + r);
    lemma_fundamental_div_mod_converse(hh * 60 + mm, 60, hh, mm);
    lemma_fundamental_div_mod_converse(x, 1000, hh * 3600 + mm * 60 + ss, r);
    lemma_fundamental_div_mod_converse(hh * 3600 + mm * 60 + ss, 60, hh * 60 + mm, ss);
}

/// Appends the uptime line for `up_ms` milliseconds since boot.
pub fn push_uptime(out: &mut String, up_ms: u64)
    ensures
        final(out)@ == old(out)@ + uptime_text(up_ms),
{
    push_str(out, "uptime      ");
    push_decimal(out, up_ms / 3_600_000);
    push_str(out, "h ");
    push_padded_decimal(out, (up_ms / 60_000) % 60, 2, '0');
    push_str(out, "m ");
    push_padded_decimal(out, (up_ms / 1000) % 60, 2, '0');
    push_str(out, "s");
    assert(final(out)@ =~= old(out)@ + uptime_text(up_ms));
}

/// The items joined by `sep`.
pub open spec fn joined(items: Seq<Seq<char>>, sep: Seq<char>) -> Seq<char>
    decreases items.len(),
{
    if items.len() == 0 {
        Seq::empty()
    } else if items.len() == 1 {
        items[0]
    } else {
        joined(items.drop_last(), sep) + sep + items.last()
    }
}

/// Appends the items joined by `sep`.
pub fn push_joined(out: &mut String, items: &Vec<String>, sep: &str)
    ensures
        final(out)@ == old(out)@ + joined(key_views(items@), sep@),
{
    let ghost iv = key_views(items@);
    let mut i: usize = 0;
    while i < items.len()
        invariant
            i <= items@.len(),
            iv == key_views(items@),
            out@ == old(out)@ + joined(iv.take(i as int), sep@),
        decreases items.len() - i,
    {
        let ghost before = out@;
        if i > 0 {
            push_str(out, sep);
        }
        push_str(out, items[i].as_str());
        proof {
            assert(iv.take(i + 1).drop_last() =~= iv.take(i as int));
            assert(iv[i as int] == items@[i as int]@);
            if i == 0 {
                assert(iv.take(0) =~= Seq::<Seq<char>>::empty());
                assert(out@ =~= old(out)@ + joined(iv.take(i + 1), sep@));
            } else {
                assert(out@ =~= old(out)@ + joined(iv.take(i + 1), sep@));
            }
        }
        i = i + 1;
    }
    assert(iv.take(items@.len() as int) =~= iv);
}

/// The state report, line by line.
pub open spec fn report_text(
    up_ms: u64,
    photos: nat,
    codes: nat,
    dicts: Result<Seq<Seq<char>>, Seq<char>>,
    vault: Result<(), Seq<char>>,
) -> Seq<char> {
    uptime_text(up_ms) + "\n"@ + "photos      "@ + decimal(photos) + " stored\n"@
        + "qr codes    "@ + decimal(codes) + " stored\n"@ + match dicts {
        Ok(names) => "pddb dicts  "@ + joined(names, ", "@),
        Err(e) => "pddb dicts  unreadable: "@ + e,
    } + "\n"@ + match vault {
        Ok(()) => "vault       responding"@,
        Err(e) => "vault       NOT RESPONDING: "@ + e,
    } + "\n"@ + "log level   set with `debug` on the badge's own log stream"@
}

/// The report for `debug`: the uptime in milliseconds, the number of stored
/// photos, the bookmark dictionary's keys, the dictionary names (or the error
/// listing them, as text) and whether the vault answers (or its error).
pub fn report(
    up_ms: u64,
    photos: usize,
    bookmark_keys: &Vec<String>,
    dicts: &Result<Vec<String>, String>,
    vault: &Result<(), String>,
) -> (t: String)
    ensures
        t@ == report_text(
            up_ms,
            photos as nat,
            code_keys(key_views(bookmark_keys@)).len(),
            match dicts {
                Ok(v) => Ok(key_views(v@)),
                Err(e) => Err(e@),
            },
            match vault {
                Ok(()) => Ok(()),
                Err(e) => Err(e@),
            },
        ),
{
    let mut t = String::new();
    push_uptime(&mut t, up_ms);
    push_str(&mut t, "\n");
    push_str(&mut t, "photos      ");
    push_decimal(&mut t, photos as u64);
    push_str(&mut t, " stored\n");
    let codes = bookmark_count(bookmark_keys);
    push_str(&mut t, "qr codes    ");
    push_decimal(&mut t, codes as u64);
    push_str(&mut t, " stored\n");
    match dicts {
        Ok(names) => {
            push_str(&mut t, "pddb dicts  ");
            push_joined(&mut t, names, ", ");
        },
        Err(e) => {
            push_str(&mut t, "pddb dicts  unreadable: ");
            push_str(&mut t, e.as_str());
        },
    }
    push_str(&mut t, "\n");
    match vault {
        Ok(()) => push_str(&mut t, "vault       responding"),
        Err(e) => {
            push_str(&mut t, "vault       NOT RESPONDING: ");
            push_str(&mut t, e.as_str());
        },
    }
    push_str(&mut t, "\n");
    push_str(&mut t, "log level   set with `debug` on the badge's own log stream");
    assert(t@ =~= report_text(
        up_ms,
        photos as nat,
        code_keys(key_views(bookmark_keys@)).len(),
        match dicts {
            Ok(v) => Ok(key_views(v@)),
            Err(e) => Err(e@),
        },
        match vault {
            Ok(()) => Ok(()),
            Err(e) => Err(e@),
        },
    ));
    t
}

/// The state report command.
pub struct Debug {}

impl Debug {
    /// The command.
    pub fn new() -> (c: Self)
        ensures
            c == (Debug {  }),
    {
        Debug {  }
    }

    /// The command's name.
    pub fn verb() -> (t: &'static str)
        ensures
            t@ == "debug"@,
    {
        "debug"
    }

    /// One line on what the command does.
    pub fn help() -> (t: &'static str)
        ensures
            t@ == "print badge state: storage, uptime, connections"@,
    {
        "print badge state: storage, uptime, connections"
    }
}

} // verus!
