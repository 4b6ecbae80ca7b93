//! Light or dark, read out of what the platform's tools and terminals answer.

use super::ThemeMode;
use crate::text::{
    contains, find_from, from_range, has, is_first_from, is_space, occurs_at, same, to_chars, trim,
    trimmed, white_space,
};
use vstd::prelude::*;
use vstd::utf8::*;

verus! {

/// What `defaults read -g AppleInterfaceStyle` says: it fails while the system
/// is light, its default, and prints `Dark` while it is dark.
pub fn parse_defaults_output(success: bool, stdout: &str) -> (r: ThemeMode)
    ensures
        r == (if success && trimmed(stdout@) == "Dark"@ {
            ThemeMode::Dark
        } else {
            ThemeMode::Light
        }),
{
    if success && same(trim(stdout).as_str(), "Dark") {
        ThemeMode::Dark
    } else {
        ThemeMode::Light
    }
}

/// What `gsettings get org.gnome.desktop.interface color-scheme` says. Nothing
/// where it is none of the values that GNOME gives.
pub fn parse_gsettings_output(stdout: &str) -> (r: Option<ThemeMode>)
    ensures
        r == ({
            let value = trimmed(stdout@);
            if has(value, "prefer-dark"@) {
                Some(ThemeMode::Dark)
            } else if has(value, "prefer-light"@) || has(value, "default"@) {
                Some(ThemeMode::Light)
            } else {
                None
            }
        }),
{
    let value = trim(stdout);
    if contains(value.as_str(), "prefer-dark") {
        Some(ThemeMode::Dark)
    } else if contains(value.as_str(), "prefer-light") || contains(value.as_str(), "default") {
        Some(ThemeMode::Light)
    } else {
        None
    }
}

/// The last word of a text: what stands between its last white space and its
/// end, once trailing white space is gone.
pub open spec fn last_word(s: Seq<char>) -> Seq<char>
    decreases s.len(),
{
    if s.len() == 0 || is_space(s.last()) {
        Seq::empty()
    } else {
        last_word(s.drop_last()).push(s.last())
    }
}

/// Reads the last word of `cs`.
fn word_at_end(cs: &[char]) -> (r: String)
    ensures
        r@ == last_word(cs@),
{
    let mut i: usize = cs.len();
    assert(cs@.take(i as int) =~= cs@);
    assert(cs@.subrange(i as int, cs@.len() as int) =~= Seq::<char>::empty());
    assert(last_word(cs@.take(i as int)) + cs@.subrange(i as int, cs@.len() as int) =~= last_word(
        cs@,
    ));
    while i > 0 && !white_space(cs[i - 1])
        invariant
            i <= cs@.len(),
            last_word(cs@.take(i as int)) + cs@.subrange(i as int, cs@.len() as int) == last_word(cs@),
        decreases i,
    {
        proof {
            let now = cs@.take(i as int);
            assert(now.drop_last() =~= cs@.take(i - 1));
            assert(now.last() == cs@[i - 1]);
            assert(cs@.subrange(i - 1, cs@.len() as int) =~= seq![cs@[i - 1]] + cs@.subrange(
                i as int,
                cs@.len() as int,
            ));
            assert(last_word(cs@.take(i - 1)).push(cs@[i - 1]) + cs@.subrange(
                i as int,
                cs@.len() as int,
            ) =~= last_word(cs@.take(i - 1)) + cs@.subrange(i - 1, cs@.len() as int));
        }
        i -= 1;
    }
    proof {
        if i > 0 {
            assert(cs@.take(i as int).last() == cs@[i - 1]);
        }
        assert(last_word(cs@.take(i as int)) =~= Seq::<char>::empty());
        assert(last_word(cs@) =~= cs@.subrange(i as int, cs@.len() as int));
    }
    from_range(cs, i, cs.len())
}

/// What `reg query ... /v AppsUseLightTheme` says: its last word is `0x0` for
/// dark and `0x1` for light.
pub fn parse_reg_output(stdout: &str) -> (r: Option<ThemeMode>)
    ensures
        r == ({
            let word = last_word(trimmed(stdout@));
            if word == "0x0"@ {
                Some(ThemeMode::Dark)
            } else if word == "0x1"@ {
                Some(ThemeMode::Light)
            } else {
                None
            }
        }),
{
    let cs = to_chars(trim(stdout).as_str());
    let word = word_at_end(&cs);
    if same(word.as_str(), "0x0") {
        Some(ThemeMode::Dark)
    } else if same(word.as_str(), "0x1") {
        Some(ThemeMode::Light)
    } else {
        None
    }
}

// ---------------------------------------------------------------------------
// Terminal background
// ---------------------------------------------------------------------------

/// One color channel of a terminal's answer, out of its greatest value.
#[derive(Debug, Clone, Copy, PartialEq, Eq, Structural)]
pub struct Channel {
    pub value: u32,
    pub max: u32,
}

/// `std::str::from_utf8`: the text, where the bytes are UTF-8.
#[verifier::external_body]
fn utf8_text(bytes: &[u8]) -> (r: Option<String>)
    ensures
        r is Some == valid_utf8(bytes@),
        r matches Some(s) ==> s@ == decode_utf8(bytes@),
{
    std::str::from_utf8(bytes).ok().map(str::to_string)
}

/// Where `p` first occurs in `s`.
pub open spec fn first_place(s: Seq<char>, p: Seq<char>) -> Option<int> {
    if has(s, p) {
        Some(choose|i: int| is_first_from(s, p, 0, i))
    } else {
        None
    }
}

/// Finds where `p` first occurs in `s`.
fn first_place_of(s: &[char], p: &[char]) -> (r: Option<usize>)
    ensures
        r matches Some(i) ==> first_place(s@, p@) == Some(i as int) && i + p@.len() <= s@.len(),
        r is None ==> first_place(s@, p@) is None,
{
    let r = find_from(s, p, 0);
    proof {
        match r {
            Some(at) => {
                assert(is_first_from(s@, p@, 0, at as int));
                assert(has(s@, p@));
                let c = choose|i: int| is_first_from(s@, p@, 0, i);
                if c < at {
                    assert(!occurs_at(s@, p@, c));
                }
                if at < c {
                    assert(!occurs_at(s@, p@, at as int));
                }
            },
            None => {
                if has(s@, p@) {
                    let i = choose|i: int| occurs_at(s@, p@, i);
                    assert(occurs_at(s@, p@, i));
                }
            },
        }
    }
    r
}

/// What stands between the first and the second `rgb:`, or from the first to
/// the end.
pub open spec fn color_text(s: Seq<char>) -> Option<Seq<char>> {
    match first_place(s, "rgb:"@) {
        Some(i) => {
            let rest = s.skip(i + "rgb:"@.len());
            match first_place(rest, "rgb:"@) {
                Some(j) => Some(rest.take(j)),
                None => Some(rest),
            }
        },
        None => None,
    }
}

/// What parts the channels of a color from each other and from what follows: a
/// slash, an escape, or a bell.
pub open spec fn parts_channels(c: char) -> bool {
    c == '/' || c == '\x1b' || c == '\x07'
}

/// How many leading characters of `s` part no channels.
pub open spec fn run_len(s: Seq<char>) -> nat
    decreases s.len(),
{
    if s.len() == 0 || parts_channels(s[0]) {
        0
    } else {
        1 + run_len(s.skip(1))
    }
}

/// The runs of `s` between what parts channels, the empty ones left out.
pub open spec fn runs(s: Seq<char>) -> Seq<Seq<char>>
    decreases s.len(),
{
    if s.len() == 0 {
        Seq::empty()
    } else if parts_channels(s[0]) {
        runs(s.skip(1))
    } else if 0 < run_len(s) <= s.len() {
        seq![s.take(run_len(s) as int)] + runs(s.skip(run_len(s) as int))
    } else {
        Seq::empty()
    }
}

proof fn lemma_run_len(s: Seq<char>, n: int)
    requires
        0 <= n <= s.len(),
        forall|k: int| 0 <= k < n ==> !parts_channels(#[trigger] s[k]),
        n < s.len() ==> parts_channels(s[n]),
    ensures
        run_len(s) == n,
    decreases n,
{
    if n > 0 {
        assert forall|k: int| 0 <= k < n - 1 implies !parts_channels(#[trigger] s.skip(1)[k]) by {
            assert(s.skip(1)[k] == s[k + 1]);
        }
        assert(!parts_channels(s[0]));
        lemma_run_len(s.skip(1), n - 1);
    }
}

/// The runs of `cs` between what parts channels.
fn channel_runs(cs: &[char]) -> (r: Vec<String>)
    ensures
        r.deep_view() == runs(cs@),
{
    let ghost all = cs@;
    let mut out: Vec<String> = Vec::new();
    let mut i: usize = 0;
    assert(all.skip(0) =~= all);
    assert(out.deep_view() + runs(all) =~= runs(all));
    while i < cs.len()
        invariant
            i <= cs@.len(),
            all == cs@,
            out.deep_view() + runs(all.skip(i as int)) == runs(all),
        decreases cs@.len() - i,
    {
        let ghost rest = all.skip(i as int);
        assert(rest[0] == all[i as int]);
        if cs[i] == '/' || cs[i] == '\x1b' || cs[i] == '\x07' {
            assert(rest.skip(1) =~= all.skip(i + 1));
            i += 1;
        } else {
            let mut e: usize = i + 1;
            while e < cs.len() && !(cs[e] == '/' || cs[e] == '\x1b' || cs[e] == '\x07')
                invariant
                    i < e <= cs@.len(),
                    !parts_channels(cs@[i as int]),
                    forall|k: int| i <= k < e ==> !parts_channels(#[trigger] cs@[k]),
                decreases cs@.len() - e,
            {
                e += 1;
            }
            let run = from_range(cs, i, e);
            let ghost before = out.deep_view();
            proof {
                assert forall|k: int| 0 <= k < e - i implies !parts_channels(#[trigger] rest[k]) by {
                    assert(rest[k] == cs@[i + k]);
                }
                if e < cs@.len() {
                    assert(rest[e - i] == cs@[e as int]);
                }
                lemma_run_len(rest, e - i);
                assert(rest.take(e - i) =~= run@);
                assert(rest.skip(e - i) =~= all.skip(e as int));
            }
            out.push(run);
            proof {
                assert(out.deep_view() =~= before.push(run@));
                assert(before.push(run@) + runs(all.skip(e as int)) =~= before + (seq![run@] + runs(
                    all.skip(e as int),
                )));
            }
            i = e;
        }
    }
    assert(out.deep_view() + runs(all.skip(i as int)) =~= out.deep_view());
    out
}

/// The value of a hexadecimal digit.
pub open spec fn hex_value(c: char) -> Option<int> {
    if '0' <= c <= '9' {
        Some(c as int - '0' as int)
    } else if 'a' <= c <= 'f' {
        Some(c as int - 'a' as int + 10)
    } else if 'A' <= c <= 'F' {
        Some(c as int - 'A' as int + 10)
    } else {
        None
    }
}

/// The value of a run of hexadecimal digits.
pub open spec fn hex_number(s: Seq<char>) -> Option<int>
    decreases s.len(),
{
    if s.len() == 0 {
        Some(0)
    } else {
        match (hex_number(s.drop_last()), hex_value(s.last())) {
            (Some(n), Some(d)) => Some(16 * n + d),
            _ => None,
        }
    }
}

/// `16` to the power of `n`.
pub open spec fn pow16(n: nat) -> int
    decreases n,
{
    if n == 0 {
        1
    } else {
        16 * pow16((n - 1) as nat)
    }
}

/// A channel: at most seven characters, hexadecimal digits with at most a plus
/// sign before them. Its greatest value follows from its length, since channels
/// come with different numbers of digits.
pub open spec fn channel_of(s: Seq<char>) -> Option<Channel> {
    let digits = if s.len() > 0 && s[0] == '+' {
        s.skip(1)
    } else {
        s
    };
    if s.len() > 7 || digits.len() == 0 {
        None
    } else {
        match hex_number(digits) {
            Some(n) => Some(Channel { value: n as u32, max: (pow16(s.len()) - 1) as u32 }),
            None => None,
        }
    }
}

/// The three channels of a terminal's answer to a background color query.
pub open spec fn osc11_channels(reply: Seq<u8>) -> Option<(Channel, Channel, Channel)> {
    if !valid_utf8(reply) {
        None
    } else {
        match color_text(decode_utf8(reply)) {
            Some(s) => {
                let r = runs(s);
                if r.len() < 3 {
                    None
                } else {
                    match (channel_of(r[0]), channel_of(r[1]), channel_of(r[2])) {
                        (Some(a), Some(b), Some(c)) => Some((a, b, c)),
                        _ => None,
                    }
                }
            },
            None => None,
        }
    }
}

/// Reads a hexadecimal digit.
fn digit_value(c: char) -> (r: Option<u32>)
    ensures
        r is Some == hex_value(c) is Some,
        r matches Some(d) ==> d == hex_value(c)->0 && d < 16,
{
    if '0' <= c && c <= '9' {
        Some(c as u32 - '0' as u32)
    } else if 'a' <= c && c <= 'f' {
        Some(c as u32 - 'a' as u32 + 10)
    } else if 'A' <= c && c <= 'F' {
        Some(c as u32 - 'A' as u32 + 10)
    } else {
        None
    }
}

proof fn lemma_hex_fails(s: Seq<char>, i: int)
    requires
        0 <= i < s.len(),
        hex_value(s[i]) is None,
    ensures
        hex_number(s) is None,
    decreases s.len(),
{
    if i < s.len() - 1 {
        lemma_hex_fails(s.drop_last(), i);
    }
}

/// Reads a channel.
fn read_channel(s: &str) -> (r: Option<Channel>)
    ensures
        r == channel_of(s@),
{
    let cs = to_chars(s);
    let from: usize = if cs.len() > 0 && cs[0] == '+' {
        1
    } else {
        0
    };
    let ghost digits = if s@.len() > 0 && s@[0] == '+' {
        s@.skip(1)
    } else {
        s@
    };
    assert(digits =~= cs@.skip(from as int));
    if cs.len() > 7 || cs.len() == from {
        return None;
    }
    proof {
        assert(pow16(7) == 0x1000_0000 && pow16(6) == 0x100_0000) by {
            reveal_with_fuel(pow16, 8);
        }
        assert forall|k: nat| k <= 7 implies #[trigger] pow16(k) <= 0x1000_0000 by {
            lemma_pow16_mono(k, 7);
        }
        assert forall|k: nat| k <= 6 implies #[trigger] pow16(k) <= 0x100_0000 by {
            lemma_pow16_mono(k, 6);
        }
        assert(digits.take(0) =~= Seq::<char>::empty());
    }
    let mut value: u32 = 0;
    let mut i: usize = from;
    let ghost mut bound: int = 1;
    while i < cs.len()
        invariant
            from <= i <= cs@.len() <= 7,
            from < cs@.len(),
            cs@ == s@,
            digits == cs@.skip(from as int),
            digits == (if s@.len() > 0 && s@[0] == '+' {
                s@.skip(1)
            } else {
                s@
            }),
            hex_number(digits.take(i - from)) == Some(value as int),
            value < bound,
            bound == pow16((i - from) as nat),
            i - from <= 7,
            pow16(7) == 0x1000_0000,
            bound <= 0x1000_0000,
            i - from == 7 || bound <= 0x100_0000,
            forall|k: nat| k <= 7 ==> #[trigger] pow16(k) <= 0x1000_0000,
            forall|k: nat| k <= 6 ==> #[trigger] pow16(k) <= 0x100_0000,
        decreases cs@.len() - i,
    {
        assert(digits[i - from] == cs@[i as int]);
        match digit_value(cs[i]) {
            Some(d) => {
                proof {
                    assert(digits.take(i - from + 1).drop_last() =~= digits.take(i - from));
                    assert(digits.take(i - from + 1).last() == cs@[i as int]);
                    bound = 16 * bound;
                    assert(bound == pow16((i - from + 1) as nat));
                }
                value = value * 16 + d;
            },
            None => {
                proof {
                    lemma_hex_fails(digits, i - from);
                }
                return None;
            },
        }
        i += 1;
    }
    assert(digits.take(i - from) =~= digits);
    let mut max: u32 = 1;
    let mut k: usize = 0;
    while k < cs.len()
        invariant
            k <= cs@.len() <= 7,
            max == pow16(k as nat),
            forall|j: nat| j <= 6 ==> #[trigger] pow16(j) <= 0x100_0000,
        decreases cs@.len() - k,
    {
        assert(pow16(k as nat) <= 0x100_0000);
        max = max * 16;
        k += 1;
    }
    proof {
        lemma_pow16_positive(cs@.len());
    }
    Some(Channel { value, max: max - 1 })
}

proof fn lemma_pow16_positive(n: nat)
    ensures
        pow16(n) >= 1,
    decreases n,
{
    if n > 0 {
        lemma_pow16_positive((n - 1) as nat);
    }
}

/// Reads the color channels out of a terminal's answer to a background color
/// query: `rgb:` and three hexadecimal channels parted by slashes, ended by an
/// escape or a bell.
pub fn parse_osc11_channels(reply: &[u8]) -> (r: Option<(Channel, Channel, Channel)>)
    ensures
        r == osc11_channels(reply@),
{
    let text = match utf8_text(reply) {
        Some(t) => t,
        None => {
            return None;
        },
    };
    let cs = to_chars(text.as_str());
    let tag = to_chars("rgb:");
    let n: usize = tag.len();
    let total: usize = cs.len();
    let start: usize = match first_place_of(&cs, &tag) {
        Some(i) => i + n,
        None => {
            return None;
        },
    };
    let rest = to_chars(from_range(&cs, start, total).as_str());
    assert(rest@ =~= cs@.skip(start as int));
    let end: usize = match first_place_of(&rest, &tag) {
        Some(j) => j,
        None => rest.len(),
    };
    let color = to_chars(from_range(&rest, 0, end).as_str());
    proof {
        assert(color@ =~= rest@.take(end as int));
        assert(rest@.take(rest@.len() as int) =~= rest@);
    }
    let r = channel_runs(&color);
    let ghost rs = runs(color@);
    if r.len() < 3 {
        return None;
    }
    assert(rs[0] == r@[0]@ && rs[1] == r@[1]@ && rs[2] == r@[2]@);
    match (
        read_channel(r[0].as_str()),
        read_channel(r[1].as_str()),
        read_channel(r[2].as_str()),
    ) {
        (Some(a), Some(b), Some(c)) => Some((a, b, c)),
        _ => None,
    }
}

/// A channel's value never exceeds its greatest value, which is not zero.
pub proof fn law_channel_within_max(s: Seq<char>)
    ensures
        channel_of(s) matches Some(c) ==> c.value <= c.max && c.max > 0,
{
    let digits = if s.len() > 0 && s[0] == '+' {
        s.skip(1)
    } else {
        s
    };
    if s.len() <= 7 && digits.len() > 0 {
        lemma_hex_bound(digits);
        lemma_pow16_mono(digits.len(), s.len());
        lemma_pow16_mono(1, s.len());
        lemma_pow16_mono(s.len(), 7);
        reveal_with_fuel(pow16, 8);
    }
}

proof fn lemma_hex_bound(s: Seq<char>)
    ensures
        hex_number(s) matches Some(n) ==> 0 <= n < pow16(s.len()),
    decreases s.len(),
{
    if s.len() > 0 {
        lemma_hex_bound(s.drop_last());
    }
}

proof fn lemma_pow16_mono(a: nat, b: nat)
    requires
        a <= b,
    ensures
        pow16(a) <= pow16(b),
    decreases b,
{
    if a < b {
        lemma_pow16_mono(a, (b - 1) as nat);
        lemma_pow16_positive((b - 1) as nat);
    }
}

// ---------------------------------------------------------------------------
// Laws: what the platform says is understood
// ---------------------------------------------------------------------------

/// The system is dark where its setting says so and could be read, and light else.
pub proof fn law_the_macos_setting_is_understood(stdout: &str, a: ThemeMode, b: ThemeMode)
    requires
        call_ensures(parse_defaults_output, (true, stdout), a),
        call_ensures(parse_defaults_output, (false, stdout), b),
    ensures
        a == ThemeMode::Dark <==> trimmed(stdout@) == "Dark"@,
        a == ThemeMode::Light <==> trimmed(stdout@) != "Dark"@,
        b == ThemeMode::Light,
{
}

/// A preference for dark is dark, whatever else is said; one for light, or none, is light; and
/// anything else tells nothing.
pub proof fn law_the_desktop_setting_is_understood(stdout: &str, r: Option<ThemeMode>)
    requires
        call_ensures(parse_gsettings_output, (stdout,), r),
    ensures
        r == Some(ThemeMode::Dark) <==> has(trimmed(stdout@), "prefer-dark"@),
        r == Some(ThemeMode::Light) <==> !(has(trimmed(stdout@), "prefer-dark"@)) && (has(
            trimmed(stdout@),
            "prefer-light"@,
        ) || has(trimmed(stdout@), "default"@)),
{
}

proof fn lemma_last_word(before: Seq<char>, w: Seq<char>)
    requires
        before.len() == 0 || is_space(before.last()),
        forall|i: int| 0 <= i < w.len() ==> !is_space(#[trigger] w[i]),
    ensures
        last_word(before + w) == w,
    decreases w.len(),
{
    if w.len() == 0 {
        assert(before + w =~= before);
    } else {
        let front = w.drop_last();
        assert forall|i: int| 0 <= i < front.len() implies !is_space(#[trigger] front[i]) by {
            assert(front[i] == w[i]);
        }
        lemma_last_word(before, front);
        assert((before + w).drop_last() =~= before + front);
        assert((before + w).last() == w[w.len() - 1]);
        assert(front.push(w.last()) =~= w);
    }
}

/// The registry's value is the last word of what it prints: apps use the light theme where it
/// is one and the dark theme where it is zero; anything else tells nothing.
pub proof fn law_the_registry_value_is_understood(
    stdout: &str,
    before: Seq<char>,
    w: Seq<char>,
    r: Option<ThemeMode>,
)
    requires
        call_ensures(parse_reg_output, (stdout,), r),
        trimmed(stdout@) == before + w,
        before.len() == 0 || is_space(before.last()),
        forall|i: int| 0 <= i < w.len() ==> !is_space(#[trigger] w[i]),
    ensures
        w == "0x0"@ ==> r == Some(ThemeMode::Dark),
        w == "0x1"@ ==> r == Some(ThemeMode::Light),
        w != "0x0"@ && w != "0x1"@ ==> r is None,
{
    lemma_last_word(before, w);
    reveal_strlit("0x0");
    reveal_strlit("0x1");
    assert("0x0"@[2] != "0x1"@[2]);
}

/// Whether a text is made of hexadecimal digits.
pub open spec fn is_hex(s: Seq<char>) -> bool {
    forall|i: int|
        0 <= i < s.len() ==> '0' <= (#[trigger] s[i]) <= '9' || 'a' <= s[i] <= 'f' || 'A' <= s[i]
            <= 'F'
}

proof fn lemma_hex_number(s: Seq<char>)
    requires
        is_hex(s),
    ensures
        hex_number(s) is Some,
    decreases s.len(),
{
    if s.len() > 0 {
        let front = s.drop_last();
        assert forall|i: int| 0 <= i < front.len() implies '0' <= (#[trigger] front[i]) <= '9'
            || 'a' <= front[i] <= 'f' || 'A' <= front[i] <= 'F' by {
            assert(front[i] == s[i]);
        }
        lemma_hex_number(front);
        assert(hex_value(s[s.len() - 1]) is Some);
    }
}

proof fn lemma_run(s: Seq<char>, rest: Seq<char>)
    requires
        is_hex(s),
        rest.len() == 0 || parts_channels(rest[0]),
    ensures
        run_len(s + rest) == s.len(),
    decreases s.len(),
{
    if s.len() == 0 {
        assert(s + rest =~= rest);
    } else {
        assert(!parts_channels(s[0]));
        assert((s + rest)[0] == s[0]);
        let tail = s.skip(1);
        assert forall|i: int| 0 <= i < tail.len() implies '0' <= (#[trigger] tail[i]) <= '9'
            || 'a' <= tail[i] <= 'f' || 'A' <= tail[i] <= 'F' by {
            assert(tail[i] == s[i + 1]);
        }
        assert((s + rest).skip(1) =~= tail + rest);
        lemma_run(tail, rest);
    }
}

proof fn lemma_first_run(s: Seq<char>, rest: Seq<char>)
    requires
        s.len() > 0,
        is_hex(s),
        rest.len() == 0 || parts_channels(rest[0]),
    ensures
        runs(s + rest) == seq![s] + runs(rest),
{
    lemma_run(s, rest);
    assert(!parts_channels(s[0]));
    assert((s + rest)[0] == s[0]);
    assert((s + rest).take(s.len() as int) =~= s);
    assert((s + rest).skip(s.len() as int) =~= rest);
}

proof fn lemma_no_color(s: Seq<char>)
    requires
        forall|i: int| 0 <= i < s.len() ==> (#[trigger] s[i]) != 'r',
    ensures
        !(has(s, "rgb:"@)),
{
    reveal_strlit("rgb:");
    assert forall|i: int| !occurs_at(s, "rgb:"@, i) by {
        if occurs_at(s, "rgb:"@, i) {
            assert(s.subrange(i, i + 4)[0] == s[i]);
            assert("rgb:"@[0] == 'r');
        }
    }
}

/// A color that a terminal reports is read channel by channel: each is the number that its
/// digits write, of as many as that many digits can write.
pub proof fn law_a_reported_color_is_read(
    reply: Seq<u8>,
    before: Seq<char>,
    a: Seq<char>,
    b: Seq<char>,
    c: Seq<char>,
    end: Seq<char>,
)
    requires
        valid_utf8(reply),
        decode_utf8(reply) == before + "rgb:"@ + (a + (seq!['/'] + (b + (seq!['/'] + (c + end))))),
        forall|i: int| 0 <= i < before.len() ==> (#[trigger] before[i]) != 'r',
        forall|i: int| 0 <= i < end.len() ==> (#[trigger] end[i]) != 'r',
        end.len() == 0 || end[0] == '\x1b' || end[0] == '\x07',
        is_hex(a) && 0 < a.len() <= 7,
        is_hex(b) && 0 < b.len() <= 7,
        is_hex(c) && 0 < c.len() <= 7,
    ensures
        osc11_channels(reply) matches Some(r) && r.0.value == hex_number(a)->0 as u32 && r.1.value
            == hex_number(b)->0 as u32 && r.2.value == hex_number(c)->0 as u32 && r.0.max == (
        pow16(a.len()) - 1) as u32 && r.1.max == (pow16(b.len()) - 1) as u32 && r.2.max == (pow16(
            c.len(),
        ) - 1) as u32,
{
    let text = decode_utf8(reply);
    let slash = seq!['/'];
    let rest3 = c + end;
    let rest2 = b + (slash + rest3);
    let color = a + (slash + rest2);
    reveal_strlit("rgb:");
    let n = before.len() as int;
    assert(text.subrange(n, n + 4) =~= "rgb:"@);
    assert(occurs_at(text, "rgb:"@, n));
    assert forall|j: int| 0 <= j < n implies !occurs_at(text, "rgb:"@, j) by {
        if occurs_at(text, "rgb:"@, j) {
            assert(text.subrange(j, j + 4)[0] == text[j]);
            assert(text[j] == before[j]);
            assert("rgb:"@[0] == 'r');
        }
    }
    assert(is_first_from(text, "rgb:"@, 0, n));
    let i = choose|i: int| is_first_from(text, "rgb:"@, 0, i);
    assert(i == n) by {
        if i < n {
            assert(!occurs_at(text, "rgb:"@, i));
        } else if i > n {
            assert(!occurs_at(text, "rgb:"@, n));
        }
    }
    assert(text.skip(n + 4) =~= color);
    assert forall|k: int| 0 <= k < color.len() implies (#[trigger] color[k]) != 'r' by {
        if k < a.len() {
            assert(color[k] == a[k]);
        } else if k > a.len() {
            let k2 = k - a.len() - 1;
            assert(color[k] == rest2[k2]);
            if k2 < b.len() {
                assert(rest2[k2] == b[k2]);
            } else if k2 > b.len() {
                let k3 = k2 - b.len() - 1;
                assert(rest2[k2] == rest3[k3]);
                if k3 < c.len() {
                    assert(rest3[k3] == c[k3]);
                } else {
                    assert(rest3[k3] == end[k3 - c.len()]);
                }
            }
        }
    }
    lemma_no_color(color);
    assert(color_text(text) == Some(color));
    lemma_first_run(a, slash + rest2);
    assert((slash + rest2)[0] == '/');
    assert((slash + rest2).skip(1) =~= rest2);
    assert(runs(slash + rest2) == runs(rest2));
    lemma_first_run(b, slash + rest3);
    assert((slash + rest3)[0] == '/');
    assert((slash + rest3).skip(1) =~= rest3);
    assert(runs(slash + rest3) == runs(rest3));
    lemma_first_run(c, end);
    let all = runs(color);
    assert(all == seq![a] + (seq![b] + (seq![c] + runs(end))));
    assert(all[0] == a && all[1] == b && all[2] == c);
    lemma_hex_number(a);
    lemma_hex_number(b);
    lemma_hex_number(c);
    assert(a[0] != '+' && b[0] != '+' && c[0] != '+');
}

} // verus!
