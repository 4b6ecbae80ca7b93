//! Text on sequences of Unicode scalar values: the string operations that the
//! rest of the crate is specified and built with.

use vstd::prelude::*;
use vstd::string::*;
use vstd::utf8::*;

verus! {

// ---------------------------------------------------------------------------
// Characters
// ---------------------------------------------------------------------------

/// The Unicode `White_Space` property.
pub open spec fn is_space(c: char) -> bool {
    ||| '\u{9}' <= c <= '\u{d}'
    ||| c == '\u{20}'
    ||| c == '\u{85}'
    ||| c == '\u{a0}'
    ||| c == '\u{1680}'
    ||| '\u{2000}' <= c <= '\u{200a}'
    ||| c == '\u{2028}'
    ||| c == '\u{2029}'
    ||| c == '\u{202f}'
    ||| c == '\u{205f}'
    ||| c == '\u{3000}'
}

/// Whether `c` has the Unicode `White_Space` property.
pub fn white_space(c: char) -> (r: bool)
    ensures
        r == is_space(c),
{
    ('\u{9}' <= c && c <= '\u{d}') || c == '\u{20}' || c == '\u{85}' || c == '\u{a0}' || c
        == '\u{1680}' || ('\u{2000}' <= c && c <= '\u{200a}') || c == '\u{2028}' || c == '\u{2029}'
        || c == '\u{202f}' || c == '\u{205f}' || c == '\u{3000}'
}

/// `c` with `A..=Z` mapped to `a..=z`.
pub open spec fn lower(c: char) -> char {
    if 'A' <= c <= 'Z' {
        (c as u8 + 32u8) as char
    } else {
        c
    }
}

/// ASCII lower-casing of one character.
pub fn lower_char(c: char) -> (r: char)
    ensures
        r == lower(c),
{
    if 'A' <= c && c <= 'Z' {
        ((c as u8) + 32) as char
    } else {
        c
    }
}

/// How many bytes UTF-8 takes for `c`.
pub open spec fn char_bytes(c: char) -> nat {
    encode_scalar(c as u32).len()
}

/// How many bytes UTF-8 takes for `s`.
pub open spec fn byte_len(s: Seq<char>) -> nat {
    encode_utf8(s).len()
}

// ---------------------------------------------------------------------------
// Strings as sequences
// ---------------------------------------------------------------------------

/// `s` with every `A..=Z` mapped to `a..=z`.
pub open spec fn lowered(s: Seq<char>) -> Seq<char> {
    s.map_values(|c: char| lower(c))
}

/// Whether `p` occurs in `s` at `i`.
pub open spec fn occurs_at(s: Seq<char>, p: Seq<char>, i: int) -> bool {
    0 <= i <= s.len() - p.len() && s.subrange(i, i + p.len()) == p
}

/// Whether `p` occurs somewhere in `s`.
pub open spec fn has(s: Seq<char>, p: Seq<char>) -> bool {
    exists|i: int| occurs_at(s, p, i)
}

/// Whether `p` stands in `s` at `i` as a token: at the start or behind white space, and
/// up to the end or to white space.
pub open spec fn token_at(s: Seq<char>, p: Seq<char>, i: int) -> bool {
    &&& occurs_at(s, p, i)
    &&& i == 0 || is_space(s[i - 1])
    &&& i + p.len() == s.len() || is_space(s[i + p.len()])
}

/// Whether `p` is a token of `s`.
pub open spec fn has_token(s: Seq<char>, p: Seq<char>) -> bool {
    exists|i: int| token_at(s, p, i)
}

/// Where `p` first occurs in `s` at or after `from`.
pub open spec fn is_first_from(s: Seq<char>, p: Seq<char>, from: int, at: int) -> bool {
    from <= at && occurs_at(s, p, at) && forall|j: int| from <= j < at ==> !occurs_at(s, p, j)
}

/// `s` without its leading white space.
pub open spec fn trimmed_start(s: Seq<char>) -> Seq<char>
    decreases s.len(),
{
    if s.len() > 0 && is_space(s[0]) {
        trimmed_start(s.skip(1))
    } else {
        s
    }
}

/// `s` without its trailing white space.
pub open spec fn trimmed_end(s: Seq<char>) -> Seq<char>
    decreases s.len(),
{
    if s.len() > 0 && is_space(s.last()) {
        trimmed_end(s.drop_last())
    } else {
        s
    }
}

/// `s` without leading and trailing white space.
pub open spec fn trimmed(s: Seq<char>) -> Seq<char> {
    trimmed_end(trimmed_start(s))
}

/// What follows `p` in `s`, where `s` begins with `p`.
pub open spec fn after_prefix(s: Seq<char>, p: Seq<char>) -> Option<Seq<char>> {
    if p.is_prefix_of(s) {
        Some(s.skip(p.len() as int))
    } else {
        None
    }
}

/// A line without the carriage return that belongs to its line feed.
pub open spec fn without_cr(s: Seq<char>) -> Seq<char> {
    if s.len() > 0 && s.last() == '\r' {
        s.drop_last()
    } else {
        s
    }
}

/// The index of the first line feed of `s`; its length where there is none.
pub open spec fn first_feed(s: Seq<char>) -> nat
    decreases s.len(),
{
    if s.len() == 0 || s[0] == '\n' {
        0
    } else {
        1 + first_feed(s.skip(1))
    }
}

/// The lines of `s`: each ends at a line feed or a carriage return and line
/// feed, which are not part of it; the last need not be ended.
pub open spec fn lines_of(s: Seq<char>) -> Seq<Seq<char>>
    decreases s.len(),
{
    if s.len() == 0 {
        Seq::empty()
    } else if first_feed(s) < s.len() {
        seq![without_cr(s.take(first_feed(s) as int))] + lines_of(s.skip(first_feed(s) as int + 1))
    } else {
        seq![s]
    }
}

/// `parts` one after another, with `sep` between neighbours.
pub open spec fn joined(parts: Seq<Seq<char>>, sep: Seq<char>) -> Seq<char>
    decreases parts.len(),
{
    if parts.len() == 0 {
        Seq::empty()
    } else if parts.len() == 1 {
        parts[0]
    } else {
        joined(parts.drop_last(), sep) + sep + parts.last()
    }
}

/// The decimal digit `d`.
pub open spec fn digit(d: nat) -> char {
    (48 + d) as u8 as char
}

/// `n` in decimal.
pub open spec fn decimal(n: nat) -> Seq<char>
    decreases n,
{
    if n < 10 {
        seq![digit(n)]
    } else {
        decimal(n / 10).push(digit(n % 10))
    }
}

// ---------------------------------------------------------------------------
// Lemmas
// ---------------------------------------------------------------------------

/// The bytes of a concatenation are the bytes of its parts.
pub proof fn lemma_encode_concat(a: Seq<char>, b: Seq<char>)
    ensures
        encode_utf8(a + b) == encode_utf8(a) + encode_utf8(b),
    decreases a.len(),
{
    if a.len() == 0 {
        assert(a + b =~= b);
        assert(encode_utf8(a) =~= Seq::<u8>::empty());
    } else {
        assert((a + b).drop_first() =~= a.drop_first() + b);
        lemma_encode_concat(a.drop_first(), b);
        assert((a + b)[0] == a[0]);
        assert(encode_utf8(a + b) =~= encode_utf8(a) + encode_utf8(b));
    }
}

/// Appending one character adds its bytes.
pub proof fn lemma_byte_len_push(s: Seq<char>, c: char)
    ensures
        byte_len(s.push(c)) == byte_len(s) + char_bytes(c),
        1 <= char_bytes(c) <= 4,
{
    assert(s.push(c) =~= s + seq![c]);
    lemma_encode_concat(s, seq![c]);
    assert(seq![c].drop_first() =~= Seq::<char>::empty());
    assert(encode_utf8(Seq::<char>::empty()) =~= Seq::<u8>::empty());
    assert(encode_utf8(seq![c]) =~= encode_scalar(c as u32));
    char_is_scalar(c);
}

/// A longer prefix takes more bytes.
pub proof fn lemma_byte_len_mono(s: Seq<char>, i: int, j: int)
    requires
        0 <= i <= j <= s.len(),
    ensures
        byte_len(s.take(i)) <= byte_len(s.take(j)),
        i < j ==> byte_len(s.take(i)) < byte_len(s.take(j)),
        byte_len(s.take(j)) - byte_len(s.take(i)) >= j - i,
    decreases j - i,
{
    if i < j {
        lemma_byte_len_mono(s, i, j - 1);
        assert(s.take(j) =~= s.take(j - 1).push(s[j - 1]));
        lemma_byte_len_push(s.take(j - 1), s[j - 1]);
    }
}

pub proof fn lemma_first_feed(s: Seq<char>)
    ensures
        first_feed(s) <= s.len(),
        forall|j: int| 0 <= j < first_feed(s) ==> s[j] != '\n',
        first_feed(s) < s.len() ==> s[first_feed(s) as int] == '\n',
    decreases s.len(),
{
    if s.len() == 0 || s[0] == '\n' {
    } else {
        lemma_first_feed(s.skip(1));
        assert forall|j: int| 0 <= j < first_feed(s) implies s[j] != '\n' by {
            if j > 0 {
                assert(s.skip(1)[j - 1] == s[j]);
            }
        }
    }
}

/// The first line feed is where none precedes it.
pub proof fn lemma_first_feed_is(s: Seq<char>, i: int)
    requires
        0 <= i <= s.len(),
        forall|j: int| 0 <= j < i ==> s[j] != '\n',
        i < s.len() ==> s[i] == '\n',
    ensures
        first_feed(s) == i,
{
    lemma_first_feed(s);
}

/// A text has at most one line more than it has characters.
pub proof fn lemma_lines_bound(s: Seq<char>)
    ensures
        lines_of(s).len() <= s.len(),
        forall|i: int| 0 <= i < lines_of(s).len() ==> (#[trigger] lines_of(s)[i]).len() <= s.len(),
    decreases s.len(),
{
    lemma_first_feed(s);
    if s.len() > 0 && first_feed(s) < s.len() {
        let rest = s.skip(first_feed(s) as int + 1);
        lemma_lines_bound(rest);
        assert forall|i: int| 0 <= i < lines_of(s).len() implies (#[trigger] lines_of(s)[i]).len()
            <= s.len() by {
            if i > 0 {
                assert(lines_of(s)[i] == lines_of(rest)[i - 1]);
            }
        }
    }
}

// ---------------------------------------------------------------------------
// Executable
// ---------------------------------------------------------------------------

/// `std::string::String::push`: appends one character.
#[verifier::external_body]
pub(crate) fn push_char(s: &mut String, c: char)
    ensures
        final(s)@ == old(s)@.push(c),
{
    s.push(c)
}

/// The characters of `s`, in order.
pub fn to_chars(s: &str) -> (r: Vec<char>)
    ensures
        r@ == s@,
{
    let mut out: Vec<char> = Vec::new();
    for c in it: s.chars()
        invariant
            out@ == it.seq().take(it.index()),
            it.seq() == s@,
    {
        proof {
            assert(it.seq().take(it.index() + 1) =~= it.seq().take(it.index()).push(c));
        }
        out.push(c);
    }
    assert(s@.take(s@.len() as int) =~= s@);
    out
}

/// The string made of `cs[from..to]`.
pub fn from_range(cs: &[char], from: usize, to: usize) -> (r: String)
    requires
        from <= to <= cs@.len(),
    ensures
        r@ == cs@.subrange(from as int, to as int),
{
    let mut out = String::new();
    let mut i: usize = from;
    while i < to
        invariant
            from <= i <= to <= cs@.len(),
            out@ == cs@.subrange(from as int, i as int),
        decreases to - i,
    {
        assert(cs@.subrange(from as int, i + 1) =~= cs@.subrange(from as int, i as int).push(
            cs@[i as int],
        ));
        push_char(&mut out, cs[i]);
        i += 1;
    }
    out
}

/// The string made of `cs`.
pub fn from_chars(cs: &[char]) -> (r: String)
    ensures
        r@ == cs@,
{
    assert(cs@.subrange(0, cs@.len() as int) =~= cs@);
    from_range(cs, 0, cs.len())
}

/// Whether two strings hold the same characters.
pub fn same(a: &str, b: &str) -> (r: bool)
    ensures
        r == (a@ == b@),
{
    a.to_owned() == b.to_owned()
}

/// `a` followed by `b`.
pub fn cat(a: &str, b: &str) -> (r: String)
    ensures
        r@ == a@ + b@,
{
    let mut out = a.to_owned();
    out.append(b);
    out
}

/// How many bytes UTF-8 takes for `s`.
pub fn bytes_in(s: &str) -> (r: usize)
    ensures
        r == byte_len(s@),
{
    s.as_bytes().len()
}

/// ASCII lower-casing.
pub fn to_lower(s: &str) -> (r: String)
    ensures
        r@ == lowered(s@),
{
    let cs = to_chars(s);
    let mut out = String::new();
    let mut i: usize = 0;
    while i < cs.len()
        invariant
            i <= cs@.len(),
            cs@ == s@,
            out@ == lowered(s@.take(i as int)),
        decreases cs@.len() - i,
    {
        push_char(&mut out, lower_char(cs[i]));
        assert(lowered(s@.take(i + 1)) =~= lowered(s@.take(i as int)).push(lower(s@[i as int])));
        i += 1;
    }
    assert(s@.take(i as int) =~= s@);
    out
}

/// Equality up to ASCII case.
pub fn same_ignoring_case(a: &str, b: &str) -> (r: bool)
    ensures
        r == (lowered(a@) == lowered(b@)),
{
    to_lower(a) == to_lower(b)
}

/// Whether `p` stands in `s` at `i`.
pub fn found_at(s: &[char], p: &[char], i: usize) -> (r: bool)
    requires
        i <= s@.len(),
    ensures
        r == occurs_at(s@, p@, i as int),
{
    if p.len() > s.len() - i {
        return false;
    }
    let mut k: usize = 0;
    while k < p.len()
        invariant
            k <= p@.len(),
            i + p@.len() <= s@.len(),
            i + p@.len() <= usize::MAX,
            forall|j: int| 0 <= j < k ==> s@[i + j] == p@[j],
        decreases p@.len() - k,
    {
        if s[i + k] != p[k] {
            assert(s@.subrange(i as int, i + p@.len())[k as int] != p@[k as int]);
            return false;
        }
        k += 1;
    }
    assert(s@.subrange(i as int, i + p@.len()) =~= p@);
    true
}

/// Where `p` first stands in `s` at or after `from`.
pub fn find_from(s: &[char], p: &[char], from: usize) -> (r: Option<usize>)
    requires
        from <= s@.len(),
    ensures
        r matches Some(at) ==> is_first_from(s@, p@, from as int, at as int),
        r is None ==> forall|j: int| from <= j ==> !occurs_at(s@, p@, j),
{
    let mut i: usize = from;
    loop
        invariant
            from <= i <= s@.len(),
            forall|j: int| from <= j < i ==> !occurs_at(s@, p@, j),
        decreases s@.len() - i,
    {
        if found_at(s, p, i) {
            return Some(i);
        }
        if i == s.len() {
            return None;
        }
        i += 1;
    }
}

/// Whether `p` occurs in `s`.
pub fn contains(s: &str, p: &str) -> (r: bool)
    ensures
        r == has(s@, p@),
{
    let cs = to_chars(s);
    let ps = to_chars(p);
    match find_from(&cs, &ps, 0) {
        Some(at) => {
            assert(occurs_at(s@, p@, at as int));
            true
        },
        None => {
            assert forall|j: int| !occurs_at(s@, p@, j) by {
                if j >= 0 {
                }
            }
            false
        },
    }
}

/// Whether `p` is a token of `s`.
pub fn contains_token(s: &str, p: &str) -> (r: bool)
    ensures
        r == has_token(s@, p@),
{
    let cs = to_chars(s);
    let ps = to_chars(p);
    let n: usize = cs.len();
    let mut i: usize = 0;
    loop
        invariant
            i <= n == cs@.len(),
            cs@ == s@,
            ps@ == p@,
            forall|j: int| 0 <= j < i ==> !token_at(s@, p@, j),
        decreases n - i,
    {
        if found_at(&cs, &ps, i) && (i == 0 || white_space(cs[i - 1])) {
            let end: usize = i + ps.len();
            if end == n || white_space(cs[end]) {
                assert(token_at(s@, p@, i as int));
                return true;
            }
        }
        assert(!token_at(s@, p@, i as int));
        if i == n {
            assert(forall|j: int| !token_at(s@, p@, j));
            return false;
        }
        i += 1;
    }
}

/// Whether `s` begins with `p`.
pub fn begins_with(s: &str, p: &str) -> (r: bool)
    ensures
        r == p@.is_prefix_of(s@),
{
    let cs = to_chars(s);
    let ps = to_chars(p);
    proof {
        if p@.is_prefix_of(s@) {
            assert(s@.subrange(0, p@.len() as int) =~= p@);
        }
        if occurs_at(s@, p@, 0) {
            assert forall|k: int| 0 <= k < p@.len() implies p@[k] == s@[k] by {
                assert(s@.subrange(0, p@.len() as int)[k] == s@[k]);
            }
            assert(p@.is_prefix_of(s@));
        }
    }
    found_at(&cs, &ps, 0)
}

/// What follows `p` in `s`, where `s` begins with it.
pub fn strip(s: &str, p: &str) -> (r: Option<String>)
    ensures
        r.deep_view() == after_prefix(s@, p@),
{
    if begins_with(s, p) {
        let cs = to_chars(s);
        let n: usize = to_chars(p).len();
        assert(s@.subrange(n as int, s@.len() as int) =~= s@.skip(n as int));
        Some(from_range(&cs, n, cs.len()))
    } else {
        None
    }
}

/// The last character of `s`.
pub fn last_char(s: &str) -> (r: Option<char>)
    ensures
        r == (if s@.len() == 0 {
            None
        } else {
            Some(s@.last())
        }),
{
    let cs = to_chars(s);
    if cs.len() == 0 {
        None
    } else {
        Some(cs[cs.len() - 1])
    }
}

/// `s` without its last character, where it has one.
pub open spec fn shortened(s: Seq<char>) -> Seq<char> {
    if s.len() == 0 {
        s
    } else {
        s.drop_last()
    }
}

/// Drops the last character, where there is one.
pub fn pop_char(s: &mut String)
    ensures
        final(s)@ == shortened(old(s)@),
{
    let cs = to_chars(s.as_str());
    if cs.len() > 0 {
        assert(cs@.subrange(0, cs@.len() - 1) =~= cs@.drop_last());
        *s = from_range(&cs, 0, cs.len() - 1);
    }
}

proof fn lemma_trim_start(s: Seq<char>, i: int)
    requires
        0 <= i <= s.len(),
        forall|j: int| 0 <= j < i ==> is_space(s[j]),
        i < s.len() ==> !is_space(s[i]),
    ensures
        trimmed_start(s) == s.skip(i),
    decreases i,
{
    if i == 0 {
        assert(s.skip(0) =~= s);
    } else {
        assert forall|j: int| 0 <= j < i - 1 implies is_space(s.skip(1)[j]) by {
            assert(s.skip(1)[j] == s[j + 1]);
        }
        lemma_trim_start(s.skip(1), i - 1);
        assert(s.skip(1).skip(i - 1) =~= s.skip(i));
    }
}

proof fn lemma_trim_end(s: Seq<char>, n: int)
    requires
        0 <= n <= s.len(),
        forall|j: int| n <= j < s.len() ==> is_space(s[j]),
        n > 0 ==> !is_space(s[n - 1]),
    ensures
        trimmed_end(s) == s.take(n),
    decreases s.len() - n,
{
    if n == s.len() {
        assert(s.take(n) =~= s);
    } else {
        assert(is_space(s.last()));
        lemma_trim_end(s.drop_last(), n);
        assert(s.drop_last().take(n) =~= s.take(n));
    }
}

/// Drops leading white space.
pub fn trim_start(s: &str) -> (r: String)
    ensures
        r@ == trimmed_start(s@),
{
    let cs = to_chars(s);
    let mut i: usize = 0;
    while i < cs.len() && white_space(cs[i])
        invariant
            i <= cs@.len(),
            forall|j: int| 0 <= j < i ==> is_space(cs@[j]),
        decreases cs@.len() - i,
    {
        i += 1;
    }
    proof {
        lemma_trim_start(s@, i as int);
        assert(s@.subrange(i as int, s@.len() as int) =~= s@.skip(i as int));
    }
    from_range(&cs, i, cs.len())
}

/// Drops leading and trailing white space.
pub fn trim(s: &str) -> (r: String)
    ensures
        r@ == trimmed(s@),
{
    let t = trim_start(s);
    let cs = to_chars(t.as_str());
    let mut n: usize = cs.len();
    while n > 0 && white_space(cs[n - 1])
        invariant
            n <= cs@.len(),
            forall|j: int| n <= j < cs@.len() ==> is_space(cs@[j]),
        decreases n,
    {
        n -= 1;
    }
    proof {
        lemma_trim_end(cs@, n as int);
        assert(cs@.subrange(0, n as int) =~= cs@.take(n as int));
    }
    from_range(&cs, 0, n)
}

/// The lines of `s`.
pub fn lines(s: &str) -> (r: Vec<String>)
    ensures
        r.deep_view() == lines_of(s@),
{
    let cs = to_chars(s);
    let mut out: Vec<String> = Vec::new();
    let mut start: usize = 0;
    let mut i: usize = 0;
    assert(s@.skip(0) =~= s@);
    assert(out.deep_view() + lines_of(s@) =~= lines_of(s@));
    while i < cs.len()
        invariant
            start <= i <= cs@.len(),
            cs@ == s@,
            forall|j: int| start <= j < i ==> cs@[j] != '\n',
            out.deep_view() + lines_of(s@.skip(start as int)) == lines_of(s@),
        decreases cs@.len() - i,
    {
        if cs[i] == '\n' {
            let ghost rest = s@.skip(start as int);
            let end: usize = if i > start && cs[i - 1] == '\r' {
                i - 1
            } else {
                i
            };
            let line = from_range(&cs, start, end);
            proof {
                lemma_first_feed_is(rest, i - start);
                assert(rest.take(i - start) =~= s@.subrange(start as int, i as int));
                assert(without_cr(rest.take(i - start)) =~= line@);
                assert(rest.skip(i - start + 1) =~= s@.skip(i + 1));
                assert(lines_of(rest) =~= seq![line@] + lines_of(s@.skip(i + 1)));
            }
            let ghost before = out.deep_view();
            out.push(line);
            assert(out.deep_view() =~= before.push(line@));
            assert(before + (seq![line@] + lines_of(s@.skip(i + 1))) =~= before.push(line@)
                + lines_of(s@.skip(i + 1)));
            start = i + 1;
        }
        i += 1;
    }
    let ghost rest = s@.skip(start as int);
    if start < cs.len() {
        let line = from_range(&cs, start, cs.len());
        proof {
            lemma_first_feed_is(rest, rest.len() as int);
            assert(line@ =~= rest);
        }
        let ghost before = out.deep_view();
        out.push(line);
        assert(out.deep_view() =~= before + seq![rest]);
    } else {
        assert(out.deep_view() + lines_of(rest) =~= out.deep_view());
    }
    out
}

/// `parts` one after another, with `sep` between neighbours.
pub fn join(parts: &[String], sep: &str) -> (r: String)
    ensures
        r@ == joined(parts.deep_view(), sep@),
{
    let mut out = String::new();
    let mut i: usize = 0;
    while i < parts.len()
        invariant
            i <= parts@.len(),
            out@ == joined(parts.deep_view().take(i as int), sep@),
        decreases parts@.len() - i,
    {
        if i > 0 {
            out.append(sep);
        }
        out.append(parts[i].as_str());
        proof {
            let t = parts.deep_view().take(i + 1);
            assert(t.drop_last() =~= parts.deep_view().take(i as int));
            assert(t.last() == parts[i as int]@);
            if i == 0 {
                assert(joined(t.drop_last(), sep@) =~= Seq::<char>::empty());
                assert(out@ =~= t[0]);
            }
        }
        i += 1;
    }
    assert(parts.deep_view().take(i as int) =~= parts.deep_view());
    out
}

/// `n` in decimal.
pub fn number(n: u64) -> (r: String)
    ensures
        r@ == decimal(n as nat),
    decreases n,
{
    let d: u8 = (n % 10) as u8;
    let c: char = (48u8 + d) as char;
    if n < 10 {
        let mut out = String::new();
        push_char(&mut out, c);
        assert(out@ =~= seq![digit(n as nat)]);
        out
    } else {
        let mut out = number(n / 10);
        push_char(&mut out, c);
        out
    }
}

/// Copies of the strings of `v`.
pub fn copies(v: &[String]) -> (r: Vec<String>)
    ensures
        r.deep_view() == v.deep_view(),
{
    let mut out: Vec<String> = Vec::new();
    let mut i: usize = 0;
    while i < v.len()
        invariant
            i <= v@.len(),
            out.deep_view() == v.deep_view().take(i as int),
        decreases v@.len() - i,
    {
        let ghost before = out.deep_view();
        out.push(v[i].clone());
        assert(out.deep_view() =~= before.push(v[i as int]@));
        assert(v.deep_view().take(i + 1) =~= before.push(v[i as int]@));
        i += 1;
    }
    assert(v.deep_view().take(i as int) =~= v.deep_view());
    out
}

/// Whether `v` holds a string with the characters of `s`.
pub fn listed(v: &[String], s: &str) -> (r: bool)
    ensures
        r == v.deep_view().contains(s@),
{
    let mut i: usize = 0;
    while i < v.len()
        invariant
            i <= v@.len(),
            forall|j: int| 0 <= j < i ==> v.deep_view()[j] != s@,
        decreases v@.len() - i,
    {
        if same(v[i].as_str(), s) {
            assert(v.deep_view()[i as int] == s@);
            return true;
        }
        i += 1;
    }
    false
}

/// A copy of an optional string.
pub fn copied(s: &Option<String>) -> (r: Option<String>)
    ensures
        r.deep_view() == s.deep_view(),
{
    match s {
        Some(t) => Some(t.clone()),
        None => None,
    }
}

/// Whether `s` is present and holds the characters of `t`.
pub fn is_text(s: &Option<String>, t: &str) -> (r: bool)
    ensures
        r == (s.deep_view() == Some(t@)),
{
    match s {
        Some(x) => same(x.as_str(), t),
        None => false,
    }
}

// ---------------------------------------------------------------------------
// Laws of text
// ---------------------------------------------------------------------------

/// A line goes up to its line feed, without a carriage return before it; what follows
/// has lines of its own. The last line needs no feed, and keeps a carriage return.
pub proof fn law_a_line_ends_at_its_feed(line: Seq<char>, rest: Seq<char>)
    requires
        !line.contains('\n'),
    ensures
        line.len() == 0 || line.last() != '\r' ==> lines_of(line + seq!['\n'] + rest) == seq![line]
            + lines_of(rest),
        lines_of(line + seq!['\r', '\n'] + rest) == seq![line] + lines_of(rest),
        line.len() > 0 ==> lines_of(line) == seq![line],
        lines_of(Seq::<char>::empty()).len() == 0,
{
    let n = line.len() as int;
    assert forall|j: int| 0 <= j < n implies line[j] != '\n' by {
        if line[j] == '\n' {
            assert(line.contains('\n'));
        }
    }
    let a = line + seq!['\n'] + rest;
    lemma_first_feed_is(a, n);
    assert(a.take(n) =~= line);
    assert(a.skip(n + 1) =~= rest);
    let b = line + seq!['\r', '\n'] + rest;
    assert(b[n] == '\r' && b[n + 1] == '\n');
    lemma_first_feed_is(b, n + 1);
    assert(b.take(n + 1) =~= line.push('\r'));
    assert(line.push('\r').drop_last() =~= line);
    assert(b.skip(n + 2) =~= rest);
    lemma_first_feed_is(line, n);
}

/// Lines that are joined by line feeds are the lines of the text.
pub proof fn law_joined_lines_read_back(parts: Seq<Seq<char>>)
    requires
        forall|i: int|
            0 <= i < parts.len() ==> !(#[trigger] parts[i]).contains('\n') && !parts[i].contains('\r'),
        parts.len() > 0 ==> parts.last().len() > 0,
    ensures
        lines_of(joined(parts, seq!['\n'])) == parts,
    decreases parts.len(),
{
    if parts.len() > 1 {
        let rest = parts.skip(1);
        assert forall|i: int| 0 <= i < rest.len() implies !(#[trigger] rest[i]).contains('\n')
            && !rest[i].contains('\r') by {
            assert(rest[i] == parts[i + 1]);
        }
        law_joined_lines_read_back(rest);
        law_joining_goes_in_order(parts, seq!['\n']);
        let first = parts[0];
        if first.len() > 0 {
            assert(first.contains(first.last()));
        }
        law_a_line_ends_at_its_feed(first, joined(rest, seq!['\n']));
        assert(seq![first] + rest =~= parts);
    } else if parts.len() == 1 {
        law_a_line_ends_at_its_feed(parts[0], Seq::empty());
        assert(seq![parts[0]] =~= parts);
    } else {
        assert(parts =~= Seq::empty());
    }
}

/// Joining keeps the parts in order: the first comes first, then the separator, then the
/// others.
pub proof fn law_joining_goes_in_order(parts: Seq<Seq<char>>, sep: Seq<char>)
    ensures
        parts.len() == 0 ==> joined(parts, sep).len() == 0,
        parts.len() == 1 ==> joined(parts, sep) == parts[0],
        parts.len() > 1 ==> joined(parts, sep) == parts[0] + sep + joined(parts.skip(1), sep),
    decreases parts.len(),
{
    if parts.len() == 2 {
        assert(joined(parts.drop_last(), sep) == parts[0]);
        assert(joined(parts.skip(1), sep) == parts[1]);
    } else if parts.len() > 2 {
        let front = parts.drop_last();
        law_joining_goes_in_order(front, sep);
        assert(front.skip(1) =~= parts.skip(1).drop_last());
        assert(parts.skip(1).last() == parts.last());
        assert(joined(parts, sep) =~= parts[0] + sep + joined(parts.skip(1), sep));
    }
}

/// Trimming takes white space off both ends, all of it, and nothing else.
pub proof fn law_trimming_takes_the_white_space(s: Seq<char>)
    ensures
        exists|from: int, to: int|
            {
                &&& 0 <= from <= to <= s.len()
                &&& trimmed(s) == #[trigger] s.subrange(from, to)
                &&& forall|i: int| 0 <= i < from ==> is_space(#[trigger] s[i])
                &&& forall|i: int| to <= i < s.len() ==> is_space(#[trigger] s[i])
            },
        trimmed(s).len() > 0 ==> !is_space(trimmed(s)[0]) && !is_space(trimmed(s).last()),
        exists|from: int|
            {
                &&& 0 <= from <= s.len()
                &&& trimmed_start(s) == #[trigger] s.skip(from)
                &&& forall|i: int| 0 <= i < from ==> is_space(#[trigger] s[i])
            },
        trimmed_start(s).len() > 0 ==> !is_space(trimmed_start(s)[0]),
{
    let from = lemma_spaces_before(s);
    lemma_trim_start(s, from);
    let t = s.skip(from);
    let n = lemma_spaces_behind(t);
    lemma_trim_end(t, n);
    assert(t.take(n) =~= s.subrange(from, from + n));
    assert forall|i: int| from + n <= i < s.len() implies is_space(#[trigger] s[i]) by {
        assert(t[i - from] == s[i]);
    }
    if n > 0 {
        assert(t.take(n)[0] == s[from]);
        assert(t.take(n).last() == t[n - 1]);
    }
}

proof fn lemma_spaces_before(s: Seq<char>) -> (i: int)
    ensures
        0 <= i <= s.len(),
        forall|j: int| 0 <= j < i ==> is_space(#[trigger] s[j]),
        i < s.len() ==> !is_space(s[i]),
    decreases s.len(),
{
    if s.len() > 0 && is_space(s[0]) {
        let t = s.skip(1);
        let i = lemma_spaces_before(t);
        assert forall|j: int| 0 <= j < i + 1 implies is_space(#[trigger] s[j]) by {
            if j > 0 {
                assert(t[j - 1] == s[j]);
            }
        }
        i + 1
    } else {
        0
    }
}

proof fn lemma_spaces_behind(s: Seq<char>) -> (n: int)
    ensures
        0 <= n <= s.len(),
        forall|j: int| n <= j < s.len() ==> is_space(#[trigger] s[j]),
        n > 0 ==> !is_space(s[n - 1]),
    decreases s.len(),
{
    if s.len() > 0 && is_space(s.last()) {
        let t = s.drop_last();
        let n = lemma_spaces_behind(t);
        assert forall|j: int| n <= j < s.len() implies is_space(#[trigger] s[j]) by {
            if j < t.len() {
                assert(t[j] == s[j]);
            }
        }
        n
    } else {
        s.len() as int
    }
}

/// What a text of decimal digits counts.
pub open spec fn value_of(s: Seq<char>) -> int
    decreases s.len(),
{
    if s.len() == 0 {
        0
    } else {
        10 * value_of(s.drop_last()) + (s.last() as int - '0' as int)
    }
}

/// A number is written with decimal digits, without zeros in front, and reads back.
pub proof fn law_numbers_read_back(n: nat)
    ensures
        value_of(decimal(n)) == n,
        forall|i: int| 0 <= i < decimal(n).len() ==> '0' <= #[trigger] decimal(n)[i] <= '9',
        decimal(n).len() > 0,
        n > 0 ==> decimal(n)[0] != '0',
        n == 0 ==> decimal(n).len() == 1,
    decreases n,
{
    reveal_with_fuel(value_of, 2);
    let s = decimal(n);
    if n < 10 {
        assert(s.drop_last() =~= Seq::empty());
    } else {
        law_numbers_read_back(n / 10);
        assert(s.drop_last() =~= decimal(n / 10));
        assert forall|i: int| 0 <= i < s.len() implies '0' <= #[trigger] s[i] <= '9' by {
            if i < decimal(n / 10).len() {
                assert(s[i] == decimal(n / 10)[i]);
            }
        }
        assert(s[0] == decimal(n / 10)[0]);
    }
}

/// Lowering changes the letters `A` to `Z`, each to its small one, and nothing else.
pub proof fn law_lowering_keeps_all_but_capitals(s: Seq<char>)
    ensures
        lowered(s).len() == s.len(),
        forall|i: int|
            0 <= i < s.len() ==> if 'A' <= s[i] <= 'Z' {
                #[trigger] lowered(s)[i] as int == s[i] as int + 32
            } else {
                lowered(s)[i] == s[i]
            },
{
}

/// A word is a token where white space or an end of the text is on both sides of it, and not
/// where it is a part of a longer word.
pub proof fn law_a_token_stands_alone(a: Seq<char>, p: Seq<char>, b: Seq<char>)
    requires
        p.len() > 0,
    ensures
        (a.len() == 0 || is_space(a.last())) && (b.len() == 0 || is_space(b[0])) ==> has_token(
            a + p + b,
            p,
        ),
        a.len() + b.len() > 0 && (forall|i: int|
            0 <= i < (a + p + b).len() ==> !is_space(#[trigger] (a + p + b)[i])) ==> !(has_token(
            a + p + b,
            p,
        )),
{
    let text = a + p + b;
    if (a.len() == 0 || is_space(a.last())) && (b.len() == 0 || is_space(b[0])) {
        let i = a.len() as int;
        assert(text.subrange(i, i + p.len()) =~= p);
        if i > 0 {
            assert(text[i - 1] == a[i - 1]);
        }
        if b.len() > 0 {
            assert(text[i + p.len()] == b[0]);
        }
        assert(token_at(text, p, i));
    }
    if a.len() + b.len() > 0 && (forall|i: int|
        0 <= i < text.len() ==> !is_space(#[trigger] text[i])) {
        assert forall|i: int| !token_at(text, p, i) by {
            if token_at(text, p, i) {
                if i > 0 {
                    assert(!is_space(text[i - 1]));
                } else {
                    assert(!is_space(text[i + p.len()]));
                }
            }
        }
    }
}

/// A text holds another that is somewhere in it, with anything before and behind; no text
/// holds a longer one.
pub proof fn law_a_text_holds_its_parts(a: Seq<char>, p: Seq<char>, b: Seq<char>)
    ensures
        has(a + p + b, p),
        p.len() > a.len() ==> !(has(a, p)),
{
    let text = a + p + b;
    let i = a.len() as int;
    assert(text.subrange(i, i + p.len()) =~= p);
    assert(occurs_at(text, p, i));
}

} // verus!
