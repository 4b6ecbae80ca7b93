//! Search in the transcript: which lines match, and the matches marked.

use crate::render::{add_line, add_span, Line, LineModel, Span, SpanModel};
use crate::text::{
    contains, find_from, from_range, has, is_first_from, lowered, occurs_at, to_chars, to_lower,
};
use crate::theme::{Style, Theme};
use vstd::prelude::*;
use vstd::string::*;

verus! {

/// Whether a line holds `pattern`, without regard to ASCII case.
pub open spec fn line_matches(line: LineModel, pattern: Seq<char>) -> bool {
    has(lowered(line.text()), lowered(pattern))
}

/// The indices of the lines that hold `pattern`; none for an empty one.
pub open spec fn matching(lines: Seq<LineModel>, pattern: Seq<char>) -> Seq<usize>
    decreases lines.len(),
{
    if lines.len() == 0 || pattern.len() == 0 {
        Seq::empty()
    } else if line_matches(lines.last(), pattern) {
        matching(lines.drop_last(), pattern).push((lines.len() - 1) as usize)
    } else {
        matching(lines.drop_last(), pattern)
    }
}

/// The indices of the lines that hold `pattern`, without regard to ASCII case; none
/// for an empty one.
pub fn search_matches(lines: &[Line], pattern: &str) -> (r: Vec<usize>)
    ensures
        r@ == matching(lines.deep_view(), pattern@),
{
    let mut out: Vec<usize> = Vec::new();
    if pattern.is_empty() {
        return out;
    }
    let ghost all = lines.deep_view();
    let needle = to_lower(pattern);
    let mut i: usize = 0;
    while i < lines.len()
        invariant
            i <= lines@.len(),
            all == lines.deep_view(),
            pattern@.len() > 0,
            needle@ == lowered(pattern@),
            out@ == matching(all.take(i as int), pattern@),
        decreases lines@.len() - i,
    {
        proof {
            assert(all.take(i + 1).drop_last() =~= all.take(i as int));
            assert(all.take(i + 1).last() == lines@[i as int].deep_view());
        }
        let text = lines[i].text();
        if contains(to_lower(text.as_str()).as_str(), needle.as_str()) {
            out.push(i);
        }
        i += 1;
    }
    assert(all.take(i as int) =~= all);
    out
}

/// The search finds exactly the lines that hold the pattern, in order.
pub proof fn law_matches_are_the_lines_that_hold_it(lines: Seq<LineModel>, pattern: Seq<char>)
    requires
        pattern.len() > 0,
        lines.len() <= usize::MAX,
    ensures
        forall|i: int|
            0 <= i < lines.len() ==> (line_matches(lines[i], pattern) <==> #[trigger] matching(
                lines,
                pattern,
            ).contains(i as usize)),
        forall|k: int|
            0 <= k < matching(lines, pattern).len() ==> (#[trigger] matching(lines, pattern)[k])
                < lines.len(),
        forall|j: int, k: int|
            0 <= j < k < matching(lines, pattern).len() ==> (#[trigger] matching(lines, pattern)[j])
                < (#[trigger] matching(lines, pattern)[k]),
    decreases lines.len(),
{
    if lines.len() > 0 {
        let front = lines.drop_last();
        law_matches_are_the_lines_that_hold_it(front, pattern);
        let m = matching(front, pattern);
        let all = matching(lines, pattern);
        let n = (lines.len() - 1) as usize;
        assert forall|i: int| 0 <= i < lines.len() implies (line_matches(lines[i], pattern)
            <==> #[trigger] all.contains(i as usize)) by {
            if line_matches(lines.last(), pattern) {
                assert(all[all.len() - 1] == n);
                if i < n {
                    assert(front[i] == lines[i]);
                    if m.contains(i as usize) {
                        let k = m.index_of(i as usize);
                        assert(all[k] == i);
                    }
                    if all.contains(i as usize) {
                        let k = all.index_of(i as usize);
                        assert(k < m.len());
                        assert(m[k] == i);
                    }
                }
            } else {
                if i < n {
                    assert(front[i] == lines[i]);
                } else if m.contains(n) {
                    let k = m.index_of(n);
                    assert(m[k] < front.len());
                }
            }
        }
    }
}

/// Where `p` next occurs in `s`, at or after `from`.
pub open spec fn next_at(s: Seq<char>, p: Seq<char>, from: int) -> Option<int>
    decreases s.len() - from,
{
    if from < 0 || from >= s.len() {
        None
    } else if occurs_at(s, p, from) {
        Some(from)
    } else {
        next_at(s, p, from + 1)
    }
}

proof fn lemma_next_at(s: Seq<char>, p: Seq<char>, from: int)
    requires
        0 <= from <= s.len(),
        p.len() > 0,
    ensures
        next_at(s, p, from) matches Some(at) ==> is_first_from(s, p, from, at) && at + p.len()
            <= s.len(),
        next_at(s, p, from) is None ==> forall|j: int| from <= j ==> !occurs_at(s, p, j),
    decreases s.len() - from,
{
    if from < s.len() && !occurs_at(s, p, from) {
        lemma_next_at(s, p, from + 1);
        if next_at(s, p, from) is None {
            assert forall|j: int| from <= j implies !occurs_at(s, p, j) by {
                if j > from {
                    assert(!occurs_at(s, p, j));
                }
            }
        }
    }
}

/// A run of `s` from `from` to `to`.
pub open spec fn piece(s: Seq<char>, from: int, to: int, style: Style) -> SpanModel {
    SpanModel { text: s.subrange(from, to), style }
}

/// The runs of `s` from `cur` on, with every occurrence of the lower-case `needle`
/// in the style `mark` and the rest in the style `base`.
pub open spec fn marked(
    s: Seq<char>,
    needle: Seq<char>,
    cur: int,
    base: Style,
    mark: Style,
) -> Seq<SpanModel>
    decreases s.len() - cur,
    when 0 <= cur && needle.len() > 0
    via marked_shrinks
{
    if cur >= s.len() {
        Seq::empty()
    } else {
        match next_at(lowered(s), needle, cur) {
            Some(at) => {
                let before = if at > cur {
                    seq![piece(s, cur, at, base)]
                } else {
                    Seq::empty()
                };
                before.push(piece(s, at, at + needle.len(), mark)) + marked(
                    s,
                    needle,
                    at + needle.len() as int,
                    base,
                    mark,
                )
            },
            None => seq![piece(s, cur, s.len() as int, base)],
        }
    }
}

#[via_fn]
proof fn marked_shrinks(s: Seq<char>, needle: Seq<char>, cur: int, base: Style, mark: Style) {
    if cur < s.len() {
        lemma_next_at(lowered(s), needle, cur);
    }
}

/// The runs that stand for `span` once every occurrence of the lower-case `needle`
/// is marked: the span itself where there is none.
pub open spec fn split(span: SpanModel, needle: Seq<char>, mark: Style) -> Seq<SpanModel> {
    if needle.len() == 0 || !(has(lowered(span.text), needle)) {
        seq![span]
    } else {
        marked(span.text, needle, 0, span.style, span.style.spec_patch(mark))
    }
}

/// The runs of a line once every occurrence of `needle` is marked.
pub open spec fn split_all(spans: Seq<SpanModel>, needle: Seq<char>, mark: Style) -> Seq<SpanModel>
    decreases spans.len(),
{
    if spans.len() == 0 {
        Seq::empty()
    } else {
        split_all(spans.drop_last(), needle, mark) + split(spans.last(), needle, mark)
    }
}

/// The lines with every occurrence of `pattern` marked, on the line `current` as the
/// current match and elsewhere as another one.
pub open spec fn search_marked(
    lines: Seq<LineModel>,
    pattern: Seq<char>,
    current: Option<usize>,
    theme: Theme,
) -> Seq<LineModel> {
    if pattern.len() == 0 {
        lines
    } else {
        Seq::new(
            lines.len(),
            |i: int|
                LineModel {
                    spans: split_all(
                        lines[i].spans,
                        lowered(pattern),
                        if current == Some(i as usize) {
                            theme.selection
                        } else {
                            theme.search_match
                        },
                    ),
                },
        )
    }
}

/// Splits a run around every occurrence of the lower-case `needle`.
pub fn split_span(span: &Span, needle: &str, mark: Style) -> (r: Vec<Span>)
    ensures
        r.deep_view() == split(span.deep_view(), needle@, mark),
{
    let ghost m = span.deep_view();
    let mut out: Vec<Span> = Vec::new();
    let hay = to_chars(to_lower(span.text.as_str()).as_str());
    let ps = to_chars(needle);
    if needle.is_empty() || !contains(to_lower(span.text.as_str()).as_str(), needle) {
        out.push(span.clone());
        assert(out.deep_view() =~= seq![m]);
        return out;
    }
    let cs = to_chars(span.text.as_str());
    let base = span.style;
    let over = base.patch(mark);
    let ghost all = marked(m.text, needle@, 0, base, over);
    let mut cur: usize = 0;
    assert(out.deep_view() + all =~= all);
    while cur < cs.len()
        invariant
            cur <= cs@.len(),
            cs@ == m.text,
            hay@ == lowered(m.text),
            ps@ == needle@,
            needle@.len() > 0,
            all == out.deep_view() + marked(m.text, needle@, cur as int, base, over),
        decreases cs@.len() - cur,
    {
        let ghost done = out.deep_view();
        proof {
            lemma_next_at(hay@, ps@, cur as int);
        }
        match find_from(hay.as_slice(), ps.as_slice(), cur) {
            Some(at) => {
                proof {
                    let n = next_at(hay@, ps@, cur as int);
                    assert(occurs_at(hay@, ps@, at as int));
                    assert(n is Some);
                    if n->0 < at {
                        assert(!occurs_at(hay@, ps@, n->0));
                    }
                    if (at as int) < n->0 {
                        assert(!occurs_at(hay@, ps@, at as int));
                    }
                }
                let end: usize = at + ps.len();
                if at > cur {
                    add_span(&mut out, Span::styled(from_range(cs.as_slice(), cur, at), base));
                }
                add_span(&mut out, Span::styled(from_range(cs.as_slice(), at, end), over));
                proof {
                    let rest = marked(m.text, needle@, end as int, base, over);
                    let here = if at > cur {
                        seq![piece(m.text, cur as int, at as int, base)]
                    } else {
                        Seq::<SpanModel>::empty()
                    }.push(piece(m.text, at as int, end as int, over));
                    assert(out.deep_view() =~= done + here);
                    assert(marked(m.text, needle@, cur as int, base, over) == here + rest);
                    assert(done + (here + rest) =~= (done + here) + rest);
                }
                cur = end;
            },
            None => {
                proof {
                    if next_at(hay@, ps@, cur as int) is Some {
                        assert(!occurs_at(hay@, ps@, next_at(hay@, ps@, cur as int)->0));
                    }
                }
                let n: usize = cs.len();
                add_span(&mut out, Span::styled(from_range(cs.as_slice(), cur, n), base));
                proof {
                    let last = piece(m.text, cur as int, n as int, base);
                    assert(out.deep_view() =~= done + seq![last]);
                    assert(marked(m.text, needle@, n as int, base, over) =~= Seq::empty());
                    assert(out.deep_view() + marked(m.text, needle@, n as int, base, over)
                        =~= out.deep_view());
                }
                cur = n;
            },
        }
    }
    assert(out.deep_view() + marked(m.text, needle@, cur as int, base, over) =~= out.deep_view());
    out
}

/// The runs of a line once every occurrence of `needle` is marked.
fn split_spans(spans: &[Span], needle: &str, mark: Style) -> (r: Vec<Span>)
    ensures
        r.deep_view() == split_all(spans.deep_view(), needle@, mark),
{
    let ghost all = spans.deep_view();
    let mut out: Vec<Span> = Vec::new();
    let mut i: usize = 0;
    assert(out.deep_view() =~= Seq::empty());
    while i < spans.len()
        invariant
            i <= spans@.len(),
            all == spans.deep_view(),
            out.deep_view() == split_all(all.take(i as int), needle@, mark),
        decreases spans@.len() - i,
    {
        proof {
            assert(all.take(i + 1).drop_last() =~= all.take(i as int));
            assert(all.take(i + 1).last() == spans@[i as int].deep_view());
        }
        let ghost before = out.deep_view();
        let mut more = split_span(&spans[i], needle, mark);
        let ghost b = more.deep_view();
        out.append(&mut more);
        assert(out.deep_view() =~= before + b);
        i += 1;
    }
    assert(all.take(i as int) =~= all);
    out
}

/// The lines with every occurrence of `pattern` marked: on the line `current` as the
/// current match, elsewhere as another one.
pub fn highlight_search(
    lines: &[Line],
    pattern: &str,
    current: Option<usize>,
    theme: &Theme,
) -> (r: Vec<Line>)
    ensures
        r.deep_view() == search_marked(lines.deep_view(), pattern@, current, *theme),
{
    if pattern.is_empty() {
        return crate::render::copy_lines(lines);
    }
    let ghost all = lines.deep_view();
    let ghost want = search_marked(all, pattern@, current, *theme);
    let needle = to_lower(pattern);
    let mut out: Vec<Line> = Vec::new();
    let mut i: usize = 0;
    assert(out.deep_view() =~= want.take(0));
    while i < lines.len()
        invariant
            i <= lines@.len(),
            all == lines.deep_view(),
            pattern@.len() > 0,
            needle@ == lowered(pattern@),
            want == search_marked(all, pattern@, current, *theme),
            out.deep_view() == want.take(i as int),
        decreases lines@.len() - i,
    {
        let here = match current {
            Some(c) => c == i,
            None => false,
        };
        let mark = if here {
            theme.selection
        } else {
            theme.search_match
        };
        let s = lines[i].spans.as_slice();
        proof {
            assert(s.deep_view() =~= lines@[i as int].deep_view().spans);
            assert(all[i as int] == lines@[i as int].deep_view());
            assert(want.take(i + 1) =~= want.take(i as int).push(want[i as int]));
        }
        add_line(&mut out, Line { spans: split_spans(s, needle.as_str(), mark) });
        i += 1;
    }
    assert(want.take(i as int) =~= want);
    out
}

/// The text of runs, without styles.
pub open spec fn text_of(spans: Seq<SpanModel>) -> Seq<char> {
    (LineModel { spans }).text()
}

proof fn lemma_text_push(spans: Seq<SpanModel>, s: SpanModel)
    ensures
        text_of(spans.push(s)) == text_of(spans) + s.text,
{
    assert(spans.push(s).drop_last() =~= spans);
}

proof fn lemma_text_append(a: Seq<SpanModel>, b: Seq<SpanModel>)
    ensures
        text_of(a + b) == text_of(a) + text_of(b),
    decreases b.len(),
{
    if b.len() == 0 {
        assert(a + b =~= a);
        assert(text_of(a) + text_of(b) =~= text_of(a));
    } else {
        let front = b.drop_last();
        lemma_text_append(a, front);
        assert(a + b =~= (a + front).push(b.last()));
        assert(b =~= front.push(b.last()));
        lemma_text_push(a + front, b.last());
        lemma_text_push(front, b.last());
        assert((text_of(a) + text_of(front)) + b.last().text =~= text_of(a) + (text_of(front)
            + b.last().text));
    }
}

proof fn lemma_marked_text(s: Seq<char>, needle: Seq<char>, cur: int, base: Style, mark: Style)
    requires
        0 <= cur <= s.len(),
        needle.len() > 0,
    ensures
        text_of(marked(s, needle, cur, base, mark)) == s.skip(cur),
    decreases s.len() - cur,
{
    if cur < s.len() {
        lemma_next_at(lowered(s), needle, cur);
        match next_at(lowered(s), needle, cur) {
            Some(at) => {
                let end = at + needle.len() as int;
                let before = if at > cur {
                    seq![piece(s, cur, at, base)]
                } else {
                    Seq::<SpanModel>::empty()
                };
                let hit = piece(s, at, end, mark);
                let rest = marked(s, needle, end, base, mark);
                lemma_marked_text(s, needle, end, base, mark);
                lemma_text_push(before, hit);
                lemma_text_append(before.push(hit), rest);
                if at > cur {
                    lemma_text_push(Seq::empty(), piece(s, cur, at, base));
                    assert(Seq::<SpanModel>::empty().push(piece(s, cur, at, base)) =~= before);
                    assert(Seq::<char>::empty() + s.subrange(cur, at) =~= s.subrange(cur, at));
                    assert((s.subrange(cur, at) + s.subrange(at, end)) + s.skip(end) =~= s.skip(
                        cur,
                    ));
                } else {
                    assert((Seq::<char>::empty() + s.subrange(at, end)) + s.skip(end) =~= s.skip(
                        cur,
                    ));
                }
            },
            None => {
                let last = piece(s, cur, s.len() as int, base);
                lemma_text_push(Seq::empty(), last);
                assert(Seq::<SpanModel>::empty().push(last) =~= seq![last]);
                assert(Seq::<char>::empty() + last.text =~= s.skip(cur));
            },
        }
    } else {
        assert(s.skip(cur) =~= Seq::<char>::empty());
    }
}

proof fn lemma_split_text(spans: Seq<SpanModel>, needle: Seq<char>, mark: Style)
    ensures
        text_of(split_all(spans, needle, mark)) == text_of(spans),
    decreases spans.len(),
{
    if spans.len() > 0 {
        let front = spans.drop_last();
        let last = spans.last();
        lemma_split_text(front, needle, mark);
        lemma_text_append(split_all(front, needle, mark), split(last, needle, mark));
        if needle.len() == 0 || !(has(lowered(last.text), needle)) {
            lemma_text_push(Seq::empty(), last);
            assert(Seq::<SpanModel>::empty().push(last) =~= seq![last]);
            assert(Seq::<char>::empty() + last.text =~= last.text);
        } else {
            lemma_marked_text(last.text, needle, 0, last.style, last.style.spec_patch(mark));
            assert(last.text.skip(0) =~= last.text);
        }
    }
}

/// Marking the matches changes styles only: every line keeps its text.
pub proof fn law_marking_keeps_the_text(
    lines: Seq<LineModel>,
    pattern: Seq<char>,
    current: Option<usize>,
    theme: Theme,
)
    ensures
        search_marked(lines, pattern, current, theme).len() == lines.len(),
        forall|i: int|
            0 <= i < lines.len() ==> (#[trigger] search_marked(
                lines,
                pattern,
                current,
                theme,
            )[i]).text() == lines[i].text(),
{
    if pattern.len() > 0 {
        assert forall|i: int| 0 <= i < lines.len() implies (#[trigger] search_marked(
            lines,
            pattern,
            current,
            theme,
        )[i]).text() == lines[i].text() by {
            let mark = if current == Some(i as usize) {
                theme.selection
            } else {
                theme.search_match
            };
            lemma_split_text(lines[i].spans, lowered(pattern), mark);
        }
    }
}

proof fn lemma_next_is_there(s: Seq<char>, p: Seq<char>, from: int)
    requires
        from >= 0,
    ensures
        next_at(s, p, from) matches Some(at) ==> from <= at && occurs_at(s, p, at),
    decreases s.len() - from,
{
    if from < s.len() && !occurs_at(s, p, from) {
        lemma_next_is_there(s, p, from + 1);
    }
}

proof fn lemma_marked(s: Seq<char>, needle: Seq<char>, cur: int, base: Style, mark: Style)
    requires
        0 <= cur,
        needle.len() > 0,
        lowered(s).len() == s.len(),
    ensures
        forall|k: int|
            0 <= k < marked(s, needle, cur, base, mark).len() ==> {
                let p = #[trigger] marked(s, needle, cur, base, mark)[k];
                p.style == base || (p.style == mark && exists|at: int|
                    #[trigger] occurs_at(lowered(s), needle, at) && p.text == s.subrange(
                        at,
                        at + needle.len(),
                    ))
            },
    decreases s.len() - cur,
{
    let all = marked(s, needle, cur, base, mark);
    if cur < s.len() {
        lemma_next_is_there(lowered(s), needle, cur);
        match next_at(lowered(s), needle, cur) {
            Some(at) => {
                lemma_marked(s, needle, at + needle.len() as int, base, mark);
                let rest = marked(s, needle, at + needle.len() as int, base, mark);
                let before = if at > cur {
                    seq![piece(s, cur, at, base)]
                } else {
                    Seq::empty()
                };
                let front = before.push(piece(s, at, at + needle.len(), mark));
                assert(all == front + rest);
                assert forall|k: int| 0 <= k < all.len() implies {
                    let p = #[trigger] all[k];
                    p.style == base || (p.style == mark && exists|at: int|
                        #[trigger] occurs_at(lowered(s), needle, at) && p.text == s.subrange(
                            at,
                            at + needle.len(),
                        ))
                } by {
                    if k < front.len() {
                        assert(all[k] == front[k]);
                        assert(occurs_at(lowered(s), needle, at));
                    } else {
                        assert(all[k] == rest[k - front.len()]);
                    }
                }
            },
            None => {},
        }
    }
}

/// What is marked is what was searched for, whatever its case; a run without it keeps its
/// style, and so does everything else of a run that holds it.
pub proof fn law_only_matches_are_marked(span: SpanModel, needle: Seq<char>, mark: Style)
    requires
        lowered(span.text).len() == span.text.len(),
    ensures
        !(has(lowered(span.text), needle)) ==> split(span, needle, mark) == seq![span],
        forall|k: int|
            0 <= k < split(span, needle, mark).len() ==> {
                let p = #[trigger] split(span, needle, mark)[k];
                p.style == span.style || (p.style == span.style.spec_patch(mark) && exists|at: int|
                    #[trigger] occurs_at(lowered(span.text), needle, at) && p.text
                        == span.text.subrange(at, at + needle.len()))
            },
{
    if needle.len() > 0 {
        lemma_marked(span.text, needle, 0, span.style, span.style.spec_patch(mark));
    }
}

} // verus!
