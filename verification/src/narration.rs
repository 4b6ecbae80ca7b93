//! Progress narration for the activity line: a playful word that changes now and
//! then while the model thinks, or what the running tool does.

use crate::text::{
    after_prefix, cat, from_range, is_space, lowered, same, strip, to_chars, to_lower, trim, trim_start,
    trimmed, trimmed_start, white_space,
};
use vstd::prelude::*;
use vstd::string::*;

verus! {

/// How many progress words there are.
pub const WORD_COUNT: usize = 22;

/// The progress word `i`.
pub open spec fn word(i: int) -> Seq<char> {
    if i <= 0 {
        "Assembling"@
    } else if i == 1 {
        "Rewiring"@
    } else if i == 2 {
        "Machining"@
    } else if i == 3 {
        "Smithing"@
    } else if i == 4 {
        "Tightening"@
    } else if i == 5 {
        "Sprouting"@
    } else if i == 6 {
        "Ripening"@
    } else if i == 7 {
        "Blooming"@
    } else if i == 8 {
        "Rooting"@
    } else if i == 9 {
        "Decanting"@
    } else if i == 10 {
        "Steeping"@
    } else if i == 11 {
        "Whisking"@
    } else if i == 12 {
        "Reducing"@
    } else if i == 13 {
        "Kneading"@
    } else if i == 14 {
        "Doodling"@
    } else if i == 15 {
        "Pottering"@
    } else if i == 16 {
        "Finagling"@
    } else if i == 17 {
        "Whittling"@
    } else if i == 18 {
        "Rummaging"@
    } else if i == 19 {
        "Unriddling"@
    } else if i == 20 {
        "Corralling"@
    } else {
        "Fiddling"@
    }
}

/// The progress words.
pub fn words() -> (r: Vec<&'static str>)
    ensures
        r@.len() == WORD_COUNT,
        forall|i: int| 0 <= i < WORD_COUNT ==> (#[trigger] r@[i])@ == word(i),
{
    let mut out: Vec<&'static str> = Vec::new();
    out.push("Assembling");
    out.push("Rewiring");
    out.push("Machining");
    out.push("Smithing");
    out.push("Tightening");
    out.push("Sprouting");
    out.push("Ripening");
    out.push("Blooming");
    out.push("Rooting");
    out.push("Decanting");
    out.push("Steeping");
    out.push("Whisking");
    out.push("Reducing");
    out.push("Kneading");
    out.push("Doodling");
    out.push("Pottering");
    out.push("Finagling");
    out.push("Whittling");
    out.push("Rummaging");
    out.push("Unriddling");
    out.push("Corralling");
    out.push("Fiddling");
    out
}

/// A number that looks unrelated to its neighbours': a multiplicative hash.
pub open spec fn scrambled(rotation: u32) -> u32 {
    let a = rotation.wrapping_mul(2_654_435_761);
    let b = a ^ (a >> 15u32);
    let c = b.wrapping_mul(2_246_822_519);
    c ^ (c >> 13u32)
}

/// Picks a word for a rotation window. The same window always has the same word,
/// but consecutive windows do not step through the list in order.
#[must_use]
pub fn narration_word(rotation: u32) -> (r: &'static str)
    ensures
        r@ == word(scrambled(rotation) as int % WORD_COUNT as int),
{
    let a: u32 = rotation.wrapping_mul(2_654_435_761);
    let b: u32 = a ^ (a >> 15u32);
    let c: u32 = b.wrapping_mul(2_246_822_519);
    let x: u32 = c ^ (c >> 13u32);
    let i: usize = x as usize % WORD_COUNT;
    words()[i]
}

/// A character's upper-case form, which may be several characters.
pub uninterp spec fn uppercase(c: char) -> Seq<char>;

/// `char::to_uppercase`: the Unicode upper-case form.
#[verifier::external_body]
fn upper(c: char) -> (r: String)
    ensures
        r@ == uppercase(c),
{
    c.to_uppercase().to_string()
}

/// `s` with its first character in upper case.
pub open spec fn capitalized(s: Seq<char>) -> Seq<char> {
    if s.len() == 0 {
        s
    } else {
        uppercase(s[0]) + s.skip(1)
    }
}

/// `s` with its first character in upper case.
pub fn title_case(s: &str) -> (r: String)
    ensures
        r@ == capitalized(s@),
{
    let cs = to_chars(s);
    if cs.len() == 0 {
        return String::new();
    }
    let rest = from_range(&cs, 1, cs.len());
    assert(rest@ =~= s@.skip(1));
    cat(upper(cs[0]).as_str(), rest.as_str())
}

/// A tool title's argument: without the tool's name where that is its first word,
/// and without white space around it.
pub open spec fn argument_of(name: Seq<char>, title: Seq<char>) -> Seq<char> {
    match after_prefix(trimmed(title), name) {
        Some(rest) => if rest.len() == 0 || is_space(rest[0]) {
            trimmed_start(rest)
        } else {
            trimmed(title)
        },
        None => trimmed(title),
    }
}

/// A tool title's argument.
pub fn strip_name_prefix(name: &str, title: &str) -> (r: String)
    ensures
        r@ == argument_of(name@, title@),
{
    let t = trim(title);
    match strip(t.as_str(), name) {
        Some(rest) => {
            let cs = to_chars(rest.as_str());
            if cs.len() == 0 || white_space(cs[0]) {
                trim_start(rest.as_str())
            } else {
                t
            }
        },
        None => t,
    }
}

/// What a tool does, by its name without regard to ASCII case; for a tool that is
/// not known, its name.
pub open spec fn verb_of(name: Seq<char>) -> Seq<char> {
    let n = lowered(name);
    if n == "read"@ {
        "Reading"@
    } else if n == "write"@ {
        "Writing"@
    } else if n == "edit"@ || n == "apply_patch"@ || n == "patch"@ {
        "Editing"@
    } else if n == "bash"@ {
        "Running"@
    } else if n == "grep"@ || n == "glob"@ || n == "list"@ {
        "Searching"@
    } else if n == "webfetch"@ || n == "fetch"@ {
        "Fetching"@
    } else if n == "task"@ {
        "Delegating"@
    } else if n == "todowrite"@ {
        "Planning"@
    } else {
        capitalized(name)
    }
}

/// What a tool does.
fn verb(name: &str) -> (r: String)
    ensures
        r@ == verb_of(name@),
{
    let lower = to_lower(name);
    let n = lower.as_str();
    if same(n, "read") {
        "Reading".to_owned()
    } else if same(n, "write") {
        "Writing".to_owned()
    } else if same(n, "edit") || same(n, "apply_patch") || same(n, "patch") {
        "Editing".to_owned()
    } else if same(n, "bash") {
        "Running".to_owned()
    } else if same(n, "grep") || same(n, "glob") || same(n, "list") {
        "Searching".to_owned()
    } else if same(n, "webfetch") || same(n, "fetch") {
        "Fetching".to_owned()
    } else if same(n, "task") {
        "Delegating".to_owned()
    } else if same(n, "todowrite") {
        "Planning".to_owned()
    } else {
        title_case(name)
    }
}

/// The activity of a running tool: what it does, and its argument where it has
/// one.
pub open spec fn activity(name: Seq<char>, title: Seq<char>) -> Seq<char> {
    if argument_of(name, title).len() == 0 {
        verb_of(name)
    } else {
        verb_of(name) + " "@ + argument_of(name, title)
    }
}

/// The activity of a running tool, such as `Running ls -F` for `bash` with the
/// title `bash ls -F`. Without an argument the verb stands alone.
#[must_use]
pub fn tool_action(name: &str, title: &str) -> (r: String)
    ensures
        r@ == activity(name@, title@),
{
    let v = verb(name);
    let arg = strip_name_prefix(name, title);
    if arg.as_str().is_empty() {
        v
    } else {
        let mut out = cat(v.as_str(), " ");
        out.append(arg.as_str());
        out
    }
}

// ---------------------------------------------------------------------------
// Laws
// ---------------------------------------------------------------------------

proof fn lemma_nothing_to_trim(s: Seq<char>)
    requires
        s.len() > 0,
        !is_space(s[0]),
        !is_space(s.last()),
    ensures
        trimmed(s) == s,
{
}

/// A call whose title is its name and an argument is narrated by what it does and that
/// argument; one whose title is its name alone, by what it does.
pub proof fn law_a_call_is_narrated(name: Seq<char>, arg: Seq<char>)
    requires
        name.len() > 0,
        !is_space(name[0]),
        !is_space(name.last()),
        arg.len() > 0,
        !is_space(arg[0]),
        !is_space(arg.last()),
    ensures
        activity(name, name + " "@ + arg) == verb_of(name) + " "@ + arg,
        activity(name, name) == verb_of(name),
        !name.is_prefix_of(arg) ==> activity(name, arg) == verb_of(name) + " "@ + arg,
{
    reveal_strlit(" ");
    let title = name + " "@ + arg;
    assert(title[0] == name[0]);
    assert(title.last() == arg.last());
    lemma_nothing_to_trim(title);
    assert(title.subrange(0, name.len() as int) =~= name);
    assert(name.is_prefix_of(title));
    let rest = title.skip(name.len() as int);
    assert(rest =~= " "@ + arg);
    assert(rest[0] == ' ' && is_space(' '));
    assert(rest.skip(1) =~= arg);
    assert(trimmed_start(arg) == arg);
    assert(trimmed_start(rest) == arg);
    lemma_nothing_to_trim(name);
    assert(name.subrange(0, name.len() as int) =~= name);
    assert(name.is_prefix_of(name));
    assert(name.skip(name.len() as int) =~= Seq::<char>::empty());
    assert(argument_of(name, name) =~= Seq::<char>::empty());
    lemma_nothing_to_trim(arg);
}

/// Tools are narrated by what they do, whatever the case of their names: tools of one kind
/// alike. Any other tool is narrated by its name.
pub proof fn law_tools_are_narrated_by_kind(name: Seq<char>)
    ensures
        lowered(name) == "read"@ ==> verb_of(name) == "Reading"@,
        lowered(name) == "write"@ ==> verb_of(name) == "Writing"@,
        lowered(name) == "edit"@ || lowered(name) == "patch"@ || lowered(name) == "apply_patch"@
            ==> verb_of(name) == "Editing"@,
        lowered(name) == "bash"@ ==> verb_of(name) == "Running"@,
        lowered(name) == "grep"@ || lowered(name) == "glob"@ || lowered(name) == "list"@ ==> verb_of(
            name,
        ) == "Searching"@,
        lowered(name) == "webfetch"@ || lowered(name) == "fetch"@ ==> verb_of(name) == "Fetching"@,
        lowered(name) == "task"@ ==> verb_of(name) == "Delegating"@,
        lowered(name) == "todowrite"@ ==> verb_of(name) == "Planning"@,
{
    reveal_strlit("read");
    reveal_strlit("write");
    reveal_strlit("edit");
    reveal_strlit("patch");
    reveal_strlit("apply_patch");
    reveal_strlit("bash");
    reveal_strlit("grep");
    reveal_strlit("glob");
    reveal_strlit("list");
    reveal_strlit("webfetch");
    reveal_strlit("fetch");
    reveal_strlit("task");
    reveal_strlit("todowrite");
    assert("read"@.len() == 4 && "edit"@.len() == 4 && "bash"@.len() == 4 && "grep"@.len() == 4
        && "glob"@.len() == 4 && "list"@.len() == 4 && "task"@.len() == 4);
    assert("write"@.len() == 5 && "patch"@.len() == 5 && "fetch"@.len() == 5);
    assert("apply_patch"@.len() == 11 && "webfetch"@.len() == 8 && "todowrite"@.len() == 9);
    assert("read"@[0] == 'r' && "edit"@[0] == 'e' && "bash"@[0] == 'b' && "grep"@[0] == 'g'
        && "glob"@[0] == 'g' && "list"@[0] == 'l' && "task"@[0] == 't');
    assert("write"@[0] == 'w' && "patch"@[0] == 'p' && "fetch"@[0] == 'f');
}

/// A capital goes in place of the first letter, and the rest stays as it is.
pub proof fn law_only_the_first_letter_changes(s: &str, r: String)
    requires
        call_ensures(title_case, (s,), r),
    ensures
        s@.len() == 0 ==> r@.len() == 0,
        s@.len() > 0 ==> r@ == uppercase(s@[0]) + s@.skip(1) && uppercase(s@[0]).is_prefix_of(r@),
{
    if s@.len() > 0 {
        let u = uppercase(s@[0]);
        assert(r@.subrange(0, u.len() as int) =~= u);
    }
}

} // verus!
