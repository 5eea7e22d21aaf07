//! The console's line input: what each key event does to the line being typed.
//!
//! The key listener receives the badge's physical buttons as well as anything
//! arriving over serial. Badge controls are not typing, and there is no line
//! editing beyond backspace, so arrows and the like are dropped instead of
//! landing in the middle of a command. Enter on an empty line asks for the
//! same help as `help` does: the badge cannot tell when a terminal attaches,
//! so that gesture stands in for it.
use vstd::prelude::*;
use crate::deps::char_from_u32;
use crate::text::string_of;

verus! {

/// The badge controls that arrive as key events but are not typing: the
/// centre button, the RTC wakeup, the two orientation events, the jog press
/// and the four arrows, and the "therefore" sign.
pub open spec fn is_badge_control(c: char) -> bool {
    ||| c == '\u{1f525}'
    ||| c == '\u{23f0}'
    ||| c == '\u{1f53c}'
    ||| c == '\u{1f53d}'
    ||| c == '\u{23ef}'
    ||| c == '\u{2190}'
    ||| c == '\u{2192}'
    ||| c == '\u{2191}'
    ||| c == '\u{2193}'
    ||| c == '\u{2234}'
}

/// The character a key event carries: its code cut to 32 bits, or NUL when
/// that is no character.
pub open spec fn key_char(k1: usize) -> char {
    let v = #[verifier::truncate] (k1 as u32);
    if v <= 0x10FFFF && !(0xD800 <= v <= 0xDFFF) {
        v as char
    } else {
        '\u{0}'
    }
}

/// What a key event does.
pub enum KeyOutcome {
    /// Backspace: the last character (if any) was removed.
    Erased,
    /// The event is not typing and was dropped.
    Ignored,
    /// The character was added to the line; echo it and flush.
    Echo(char),
    /// Enter: run this command line; the line is now empty.
    Submit(String),
}

/// The line being typed.
pub struct LineEditor {
    line: Vec<char>,
}

/// The line after key `k1`, and whether the key submits it.
pub open spec fn line_after_key(line: Seq<char>, k1: usize) -> Seq<char> {
    let k = key_char(k1);
    if k1 == 8 {
        if line.len() > 0 {
            line.drop_last()
        } else {
            line
        }
    } else if is_badge_control(k) {
        line
    } else if k != '\u{0}' && k != '\n' && k != '\r' {
        line.push(k)
    } else if k == '\n' || k == '\r' {
        Seq::empty()
    } else {
        line
    }
}

/// Whether key `k1` submits the line.
pub open spec fn key_submits(k1: usize) -> bool {
    let k = key_char(k1);
    k1 != 8 && !is_badge_control(k) && (k == '\n' || k == '\r')
}

/// The command line that Enter runs: the line, or `help` when it is empty.
pub open spec fn submitted(line: Seq<char>) -> Seq<char> {
    if line.len() == 0 {
        "help"@
    } else {
        line
    }
}

impl View for LineEditor {
    type V = Seq<char>;

    /// The characters typed so far.
    closed spec fn view(&self) -> Seq<char> {
        self.line@
    }
}

impl LineEditor {
    /// An empty line.
    pub fn new() -> (e: Self)
        ensures
            e@ == Seq::<char>::empty(),
            is_clean_line(e@),
    {
        LineEditor { line: Vec::new() }
    }

    /// Applies key event `k1` (the code the keyboard sent): backspace (code 8)
    /// removes the last character; badge controls and NUL are dropped; Enter
    /// (line feed or carriage return) submits the line and empties it; any
    /// other character is typed.
    pub fn key(&mut self, k1: usize) -> (o: KeyOutcome)
        ensures
            final(self)@ == line_after_key(old(self)@, k1),
            k1 == 8 ==> o is Erased,
            key_submits(k1) ==> (o matches KeyOutcome::Submit(s) && s@ == submitted(old(self)@)),
            (k1 != 8 && !key_submits(k1) && final(self)@ != old(self)@) ==> o == KeyOutcome::Echo(
                key_char(k1),
            ),
            (k1 != 8 && !key_submits(k1) && final(self)@ == old(self)@) ==> o is Ignored,
    {
        let v: u32 = #[verifier::truncate] (k1 as u32);
        let k = match char_from_u32(v) {
            Some(c) => c,
            None => '\u{0}',
        };
        assert(k == key_char(k1));
        if k1 == 0x08 {
            self.line.pop();
            KeyOutcome::Erased
        } else if k == '\u{1f525}' || k == '\u{23f0}' || k == '\u{1f53c}' || k == '\u{1f53d}' || k
            == '\u{23ef}' || k == '\u{2190}' || k == '\u{2192}' || k == '\u{2191}' || k
            == '\u{2193}' || k == '\u{2234}' {
            KeyOutcome::Ignored
        } else if k != '\u{0}' && k != '\n' && k != '\r' {
            self.line.push(k);
            KeyOutcome::Echo(k)
        } else if k == '\n' || k == '\r' {
            let s = if self.line.len() == 0 {
                string_of(&vec!['h', 'e', 'l', 'p'])
            } else {
                string_of(&self.line)
            };
            proof {
                reveal_strlit("help");
                assert("help"@ =~= seq!['h', 'e', 'l', 'p']);
            }
            self.line = Vec::new();
            KeyOutcome::Submit(s)
        } else {
            KeyOutcome::Ignored
        }
    }
}

/// Typing a character and then backspace leaves the line as it was.
pub proof fn backspace_undoes_typing(line: Seq<char>, k1: usize)
    requires
        k1 != 8,
        !key_submits(k1),
        line_after_key(line, k1) != line,
    ensures
        line_after_key(line_after_key(line, k1), 8) == line,
{
    assert(line.push(key_char(k1)).drop_last() =~= line);
}

/// The badge controls never reach the line: each of the ten codes the badge
/// sends for its controls (the centre button `0x1F525`, the RTC wakeup
/// `0x23F0`, the orientation events `0x1F53C` and `0x1F53D`, the jog press
/// `0x23EF`, the arrows `0x2190` to `0x2193` that the jog wheel sends, and
/// `0x2234`) leaves the line exactly as it was and submits nothing, so
/// [`LineEditor::key`] answers it with `Ignored`; Enter afterwards runs the
/// line as it was before the control.
pub proof fn badge_controls_leave_the_line(line: Seq<char>, k1: usize)
    requires
        k1 == 0x1F525 || k1 == 0x23F0 || k1 == 0x1F53C || k1 == 0x1F53D || k1 == 0x23EF || k1
            == 0x2190 || k1 == 0x2191 || k1 == 0x2192 || k1 == 0x2193 || k1 == 0x2234,
    ensures
        k1 != 8,
        !key_submits(k1),
        line_after_key(line, k1) == line,
        key_submits(13) && line_after_key(line_after_key(line, k1), 13) == Seq::<char>::empty(),
{
    let v = #[verifier::truncate] (k1 as u32);
    assert(v == k1) by (bit_vector)
        requires
            k1 < 0x20000,
            v == #[verifier::truncate] (k1 as u32),
    ;
    let r = #[verifier::truncate] (13usize as u32);
    assert(r == 13) by (bit_vector)
        requires
            r == #[verifier::truncate] (13usize as u32),
    ;
}

/// Whether a typed line holds only typing: no NUL, line feed, carriage
/// return or badge control.
pub open spec fn is_clean_line(line: Seq<char>) -> bool {
    forall|i: int|
        0 <= i < line.len() ==> {
            let c = #[trigger] line[i];
            c != '\u{0}' && c != '\n' && c != '\r' && !is_badge_control(c)
        }
}

/// The line after the key events `keys`, one after another.
pub open spec fn line_after_keys(line: Seq<char>, keys: Seq<usize>) -> Seq<char>
    decreases keys.len(),
{
    if keys.len() == 0 {
        line
    } else {
        line_after_keys(line_after_key(line, keys[0]), keys.drop_first())
    }
}

/// The line being typed never holds NUL, a line feed, a carriage return or a
/// badge control, whatever keys arrive: starting from a clean line (such as
/// the empty line [`LineEditor::new`] starts with), it stays clean.
pub proof fn typed_line_stays_clean(line: Seq<char>, keys: Seq<usize>)
    requires
        is_clean_line(line),
    ensures
        is_clean_line(line_after_keys(line, keys)),
    decreases keys.len(),
{
    if keys.len() > 0 {
        let next = line_after_key(line, keys[0]);
        assert(is_clean_line(next)) by {
            if keys[0] == 8 && line.len() > 0 {
                assert forall|i: int| 0 <= i < next.len() implies {
                    let c = #[trigger] next[i];
                    c != '\u{0}' && c != '\n' && c != '\r' && !is_badge_control(c)
                } by {
                    assert(next[i] == line[i]);
                }
            }
        }
        typed_line_stays_clean(next, keys.drop_first());
    }
}

/// A message that reaches the console.
#[derive(Clone, Copy, Debug, PartialEq, Eq, Structural)]
pub enum ConsoleEvent {
    /// A key event with its code.
    Keypress(usize),
    /// The application is to exit.
    Quit,
    /// Anything else: a callback for the REPL.
    Other,
}

/// What the console does with a message.
pub enum ConsoleStep {
    /// A key event, and what it did to the line. After `Submit`, the REPL
    /// takes the line and then updates, not as a callback.
    Key(KeyOutcome),
    /// Leave the loop and tear the server down.
    Quit,
    /// Pass the message to the REPL, then let it update as a callback.
    Callback,
}

impl LineEditor {
    /// Routes a console message: key events go through [`LineEditor::key`],
    /// `Quit` ends the loop, anything else is the REPL's callback. The second
    /// result is `Some(was_callback)` when the REPL updates afterwards.
    pub fn handle(&mut self, event: ConsoleEvent) -> (r: (ConsoleStep, Option<bool>))
        ensures
            match event {
                ConsoleEvent::Keypress(k1) => {
                    &&& final(self)@ == line_after_key(old(self)@, k1)
                    &&& r.0 matches ConsoleStep::Key(o)
                    &&& (key_submits(k1) ==> (o matches KeyOutcome::Submit(s) && s@ == submitted(
                        old(self)@,
                    )))
                    &&& r.1 == if key_submits(k1) {
                        Some(false)
                    } else {
                        None
                    }
                    &&& (k1 == 8 ==> o is Erased)
                    &&& ((k1 != 8 && !key_submits(k1) && final(self)@ != old(self)@) ==> o
                        == KeyOutcome::Echo(key_char(k1)))
                    &&& ((k1 != 8 && !key_submits(k1) && final(self)@ == old(self)@) ==> o is Ignored)
                },
                ConsoleEvent::Quit => final(self)@ == old(self)@ && r.0 is Quit && r.1 is None,
                ConsoleEvent::Other => final(self)@ == old(self)@ && r.0 is Callback && r.1 == Some(
                    true,
                ),
            },
    {
        match event {
            ConsoleEvent::Keypress(k1) => {
                let o = self.key(k1);
                let update = match o {
                    KeyOutcome::Submit(_) => Some(false),
                    _ => None,
                };
                (ConsoleStep::Key(o), update)
            },
            ConsoleEvent::Quit => (ConsoleStep::Quit, None),
            ConsoleEvent::Other => (ConsoleStep::Callback, Some(true)),
        }
    }
}

} // verus!
