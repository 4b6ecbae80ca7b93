//! Terminal escape sequences.

use crate::appearance::os_theme::{hex_number, hex_value};
use crate::state::{last_answer, App, LoopAction};
use crate::text::cat;
use crate::theme::{hex_byte, Color};
use vstd::prelude::*;
use vstd::string::*;
use vstd::utf8::*;

verus! {

/// The character of the standard base64 alphabet for `n`.
pub open spec fn base64_digit(n: int) -> char {
    if n < 26 {
        (65 + n) as u8 as char
    } else if n < 52 {
        (71 + n) as u8 as char
    } else if n < 62 {
        (n - 4) as u8 as char
    } else if n == 62 {
        '+'
    } else {
        '/'
    }
}

/// The standard base64 form of `b`: four characters for three bytes, padded with
/// `=` at the end.
pub open spec fn base64(b: Seq<u8>) -> Seq<char>
    decreases b.len(),
{
    if b.len() == 0 {
        Seq::empty()
    } else if b.len() == 1 {
        seq![base64_digit(b[0] as int / 4), base64_digit(b[0] as int % 4 * 16), '=', '=']
    } else if b.len() == 2 {
        seq![
            base64_digit(b[0] as int / 4),
            base64_digit(b[0] as int % 4 * 16 + b[1] as int / 16),
            base64_digit(b[1] as int % 16 * 4),
            '=',
        ]
    } else {
        seq![
            base64_digit(b[0] as int / 4),
            base64_digit(b[0] as int % 4 * 16 + b[1] as int / 16),
            base64_digit(b[1] as int % 16 * 4 + b[2] as int / 64),
            base64_digit(b[2] as int % 64),
        ] + base64(b.skip(3))
    }
}

/// `base64::Engine::encode` with the engine `STANDARD`: the standard base64 form,
/// with padding.
#[verifier::external_body]
fn encode_base64(bytes: &[u8]) -> (r: String)
    ensures
        r@ == base64(bytes@),
{
    base64::Engine::encode(&base64::engine::general_purpose::STANDARD, bytes)
}

/// The sequence that sets the clipboard to `s` (OSC 52).
pub open spec fn clipboard_sequence(s: Seq<char>) -> Seq<char> {
    "\x1b]52;c;"@ + base64(encode_utf8(s)) + "\x07"@
}

/// Builds the sequence that sets the clipboard to `s` (OSC 52).
pub fn osc52_sequence(s: &str) -> (r: String)
    ensures
        r@ == clipboard_sequence(s@),
{
    let mut out = cat("\x1b]52;c;", encode_base64(s.as_bytes()).as_str());
    out.append("\x07");
    out
}

/// Builds the sequence of a system notification (OSC 9).
pub fn notify_sequence(text: &str) -> (r: String)
    ensures
        r@ == "\x1b]9;"@ + text@ + "\x07"@,
{
    let mut out = cat("\x1b]9;", text);
    out.append("\x07");
    out
}

/// Builds the sequence that sets the terminal's title (OSC 0).
pub fn title_sequence(text: &str) -> (r: String)
    ensures
        r@ == "\x1b]0;"@ + text@ + "\x07"@,
{
    let mut out = cat("\x1b]0;", text);
    out.append("\x07");
    out
}

/// Builds the sequence that sets the cursor's color (OSC 12), given as six
/// hexadecimal digits.
pub fn cursor_color_sequence(hex: &str) -> (r: String)
    ensures
        r@ == "\x1b]12;#"@ + hex@ + "\x07"@,
{
    let mut out = cat("\x1b]12;#", hex);
    out.append("\x07");
    out
}

/// The sequence that resets the cursor's color (OSC 112).
pub const CURSOR_COLOR_RESET_SEQUENCE: &'static str = "\x1b]112\x07";

/// What the loop writes to the terminal for a side effect: the clipboard sequence
/// of the newest answer, the notification and the title of a finished turn, the
/// plain title, or the cursor's color. Nothing for a suspension, nor without an
/// answer to copy.
pub open spec fn action_text(action: LoopAction, answer: Option<Seq<char>>, accent: Option<Color>) -> Option<
    Seq<char>,
> {
    match action {
        LoopAction::Yank => match answer {
            Some(t) => Some(clipboard_sequence(t)),
            None => None,
        },
        LoopAction::Suspend => None,
        LoopAction::Notify => Some(
            "\x1b]9;"@ + "otto: turn finished"@ + "\x07"@ + ("\x1b]0;"@ + "otto — done"@ + "\x07"@),
        ),
        LoopAction::ResetTitle => Some("\x1b]0;"@ + "otto"@ + "\x07"@),
        LoopAction::CursorColor => match accent {
            Some(Color::Rgb(r, g, b)) => Some(
                "\x1b]12;#"@ + (hex_byte(r) + hex_byte(g) + hex_byte(b)) + "\x07"@,
            ),
            _ => Some(CURSOR_COLOR_RESET_SEQUENCE@),
        },
    }
}

impl App {
    /// What the loop writes to the terminal for a side effect, if anything.
    pub fn action_sequence(&self, action: LoopAction) -> (r: Option<String>)
        ensures
            r.deep_view() == action_text(
                action,
                last_answer(self.deep_view().transcript),
                self.deep_view().themes[0].accent.fg,
            ),
    {
        reveal(<App as DeepView>::deep_view);
        match action {
            LoopAction::Yank => match self.last_assistant_text() {
                Some(t) => Some(osc52_sequence(t)),
                None => None,
            },
            LoopAction::Suspend => None,
            LoopAction::Notify => {
                let mut out = notify_sequence("otto: turn finished");
                out.append(title_sequence("otto — done").as_str());
                Some(out)
            },
            LoopAction::ResetTitle => Some(title_sequence("otto")),
            LoopAction::CursorColor => match self.themes.active().accent_hex() {
                Some(hex) => Some(cursor_color_sequence(hex.as_str())),
                None => Some(CURSOR_COLOR_RESET_SEQUENCE.to_owned()),
            },
        }
    }
}

/// Remembers whether the terminal was asked for enhanced keyboard reports, so that
/// they are taken back only where they were asked for.
#[derive(Debug, Clone, Copy, PartialEq, Eq, Structural)]
pub struct KeyboardGate {
    enhanced: bool,
}

impl KeyboardGate {
    /// Whether they were asked for.
    pub closed spec fn enhanced(self) -> bool {
        self.enhanced
    }

    /// They were not asked for yet.
    pub fn new() -> (r: Self)
        ensures
            !r.enhanced(),
    {
        KeyboardGate { enhanced: false }
    }

    /// Remembers whether they were asked for.
    pub fn store(&mut self, enhanced: bool)
        ensures
            final(self).enhanced() == enhanced,
    {
        self.enhanced = enhanced;
    }

    /// Whether they have to be taken back.
    #[must_use]
    pub fn should_pop_kbd(self) -> (r: bool)
        ensures
            r == self.enhanced(),
    {
        self.enhanced
    }
}

// ---------------------------------------------------------------------------
// Laws
// ---------------------------------------------------------------------------

/// What a character of the base64 alphabet stands for.
pub open spec fn sextet(c: char) -> int {
    if 'A' <= c <= 'Z' {
        c as int - 'A' as int
    } else if 'a' <= c <= 'z' {
        c as int - 'a' as int + 26
    } else if '0' <= c <= '9' {
        c as int - '0' as int + 52
    } else if c == '+' {
        62
    } else {
        63
    }
}

/// The bytes that a base64 text stands for.
pub open spec fn unbase64(t: Seq<char>) -> Seq<u8>
    decreases t.len(),
{
    if t.len() < 4 {
        Seq::empty()
    } else {
        let n = sextet(t[0]) * 0x40000 + sextet(t[1]) * 0x1000 + (if t[2] == '=' {
            0
        } else {
            sextet(t[2]) * 0x40
        }) + (if t[3] == '=' {
            0
        } else {
            sextet(t[3])
        });
        let all = seq![(n / 0x10000) as u8, (n / 0x100 % 0x100) as u8, (n % 0x100) as u8];
        if t[2] == '=' {
            all.take(1)
        } else if t[3] == '=' {
            all.take(2)
        } else {
            all + unbase64(t.skip(4))
        }
    }
}

proof fn lemma_digit(n: int)
    requires
        0 <= n < 64,
    ensures
        sextet(base64_digit(n)) == n,
        base64_digit(n) != '=',
{
}

proof fn lemma_group(x: int, y: int, z: int)
    requires
        0 <= x < 256,
        0 <= y < 256,
        0 <= z < 256,
    ensures
        ({
            let n = x / 4 * 0x40000 + (x % 4 * 16 + y / 16) * 0x1000 + (y % 16 * 4 + z / 64) * 0x40
                + z % 64;
            n / 0x10000 == x && n / 0x100 % 0x100 == y && n % 0x100 == z
        }),
{
    let n = x / 4 * 0x40000 + (x % 4 * 16 + y / 16) * 0x1000 + (y % 16 * 4 + z / 64) * 0x40 + z
        % 64;
    assert(n == x * 0x10000 + y * 0x100 + z);
    assert(n / 0x100 == x * 0x100 + y);
}

proof fn lemma_digits(x: int, y: int, z: int)
    requires
        0 <= x < 256,
        0 <= y < 256,
        0 <= z < 256,
    ensures
        sextet(base64_digit(x / 4)) == x / 4,
        sextet(base64_digit(x % 4 * 16 + y / 16)) == x % 4 * 16 + y / 16,
        sextet(base64_digit(y % 16 * 4 + z / 64)) == y % 16 * 4 + z / 64,
        sextet(base64_digit(z % 64)) == z % 64,
        base64_digit(y % 16 * 4 + z / 64) != '=',
        base64_digit(z % 64) != '=',
{
    lemma_digit(x / 4);
    lemma_digit(x % 4 * 16 + y / 16);
    lemma_digit(y % 16 * 4 + z / 64);
    lemma_digit(z % 64);
}

proof fn lemma_last_group(b: Seq<u8>)
    requires
        b.len() == 1 || b.len() == 2,
    ensures
        unbase64(base64(b)) == b,
        base64(b).len() == 4,
{
    let t = base64(b);
    let x = b[0] as int;
    if b.len() == 1 {
        lemma_group(x, 0, 0);
        lemma_digits(x, 0, 0);
        assert(unbase64(t) =~= b);
    } else {
        let y = b[1] as int;
        lemma_group(x, y, 0);
        lemma_digits(x, y, 0);
        assert(unbase64(t) =~= b);
    }
}

proof fn lemma_base64_reads_back(b: Seq<u8>)
    ensures
        unbase64(base64(b)) == b,
        base64(b).len() % 4 == 0,
    decreases b.len(),
{
    if b.len() == 1 || b.len() == 2 {
        lemma_last_group(b);
    } else if b.len() >= 3 {
        let t = base64(b);
        let rest = b.skip(3);
        let (x, y, z) = (b[0] as int, b[1] as int, b[2] as int);
        lemma_group(x, y, z);
        lemma_digits(x, y, z);
        lemma_base64_reads_back(rest);
        assert(t.skip(4) =~= base64(rest));
        assert(unbase64(t) == seq![b[0], b[1], b[2]] + unbase64(t.skip(4)));
        assert(seq![b[0], b[1], b[2]] + rest =~= b);
    }
}

/// What is copied is what the clipboard is given: its base64 form reads back as the text,
/// byte by byte, and takes whole groups of four characters.
pub proof fn law_the_clipboard_gets_the_text(s: &str, r: String) -> (form: Seq<char>)
    requires
        call_ensures(osc52_sequence, (s,), r),
    ensures
        r@ == "\x1b]52;c;"@ + form + "\x07"@,
        unbase64(form) == encode_utf8(s@),
        form.len() % 4 == 0,
{
    lemma_base64_reads_back(encode_utf8(s@));
    base64(encode_utf8(s@))
}

/// Copying copies the last answer, and nothing where there is none; suspending writes
/// nothing; every other action writes something. A color is written as its three bytes.
pub proof fn law_actions_write_what_they_say(
    answer: Option<Seq<char>>,
    accent: Option<Color>,
    red: u8,
    green: u8,
    blue: u8,
)
    ensures
        answer is None ==> action_text(LoopAction::Yank, answer, accent) is None,
        answer matches Some(t) ==> exists|form: Seq<char>| #[trigger]
            unbase64(form) == encode_utf8(t) && action_text(LoopAction::Yank, answer, accent)
                == Some("\x1b]52;c;"@ + form + "\x07"@),
        action_text(LoopAction::Suspend, answer, accent) is None,
        action_text(LoopAction::Notify, answer, accent) is Some,
        action_text(LoopAction::ResetTitle, answer, accent) is Some,
        exists|digits: Seq<char>|
            digits.len() == 6 && #[trigger] hex_number(digits) == Some(
                red * 0x10000 + green * 0x100 + blue,
            ) && action_text(
                LoopAction::CursorColor,
                answer,
                Some(Color::Rgb(red, green, blue)),
            ) == Some("\x1b]12;#"@ + digits + "\x07"@),
{
    if answer is Some {
        let bytes = encode_utf8(answer->0);
        lemma_base64_reads_back(bytes);
        assert(unbase64(base64(bytes)) == bytes);
    }
    let digits = hex_byte(red) + hex_byte(green) + hex_byte(blue);
    lemma_hex(Seq::empty(), red);
    assert(Seq::<char>::empty() + hex_byte(red) =~= hex_byte(red));
    lemma_hex(hex_byte(red), green);
    lemma_hex(hex_byte(red) + hex_byte(green), blue);
    assert(hex_number(digits) == Some(red * 0x10000 + green * 0x100 + blue));
}

proof fn lemma_hex(before: Seq<char>, b: u8)
    requires
        hex_number(before) is Some,
    ensures
        hex_number(before + hex_byte(b)) == Some(hex_number(before)->0 * 0x100 + b),
{
    let all = before + hex_byte(b);
    let hi = hex_byte(b)[0];
    let lo = hex_byte(b)[1];
    assert(hex_value(hi) == Some(b as int / 16));
    assert(hex_value(lo) == Some(b as int % 16));
    assert(all.drop_last() =~= before.push(hi));
    assert(before.push(hi).drop_last() =~= before);
    assert(all.last() == lo);
    assert(before.push(hi).last() == hi);
    let n = hex_number(before)->0;
    assert(hex_number(before.push(hi)) == Some(16 * n + b as int / 16));
    assert(hex_number(all) == Some(16 * (16 * n + b as int / 16) + b as int % 16));
}

} // verus!
