//! Character-level text helpers shared by the other modules.
//!
//! Every contract here speaks of a string through its view, the sequence of
//! its characters.

use vstd::prelude::*;
use vstd::string::*;

verus! {

/// `needle` occurs in `hay` starting at position `at`.
pub open spec fn occurs_at(hay: Seq<char>, needle: Seq<char>, at: int) -> bool {
    &&& 0 <= at
    &&& at + needle.len() <= hay.len()
    &&& hay.subrange(at, at + needle.len()) == needle
}

/// `needle` occurs somewhere in `hay`.
pub open spec fn is_substring(hay: Seq<char>, needle: Seq<char>) -> bool {
    exists|at: int| occurs_at(hay, needle, at)
}

/// `prefix` is an initial segment of `s`.
pub open spec fn has_prefix(s: Seq<char>, prefix: Seq<char>) -> bool {
    prefix.len() <= s.len() && s.subrange(0, prefix.len() as int) == prefix
}

/// `suffix` is a final segment of `s`.
pub open spec fn has_suffix(s: Seq<char>, suffix: Seq<char>) -> bool {
    suffix.len() <= s.len() && s.subrange(s.len() - suffix.len(), s.len() as int) == suffix
}

/// The strings of a list, each by its characters.
pub open spec fn texts(list: Seq<String>) -> Seq<Seq<char>> {
    list.map_values(|s: String| s@)
}

/// A list of paths by the characters of their components.
pub open spec fn paths_view(paths: Seq<Vec<String>>) -> Seq<Seq<Seq<char>>> {
    paths.map_values(|p: Vec<String>| texts(p@))
}

/// An optional string by its characters.
pub open spec fn opt_text(o: Option<String>) -> Option<Seq<char>> {
    match o {
        Some(s) => Some(s@),
        None => None,
    }
}

/// The texts `parts` written one after the other with `separator` between
/// them.
pub open spec fn joined(parts: Seq<Seq<char>>, separator: Seq<char>) -> Seq<char>
    decreases parts.len(),
{
    if parts.len() == 0 {
        Seq::empty()
    } else if parts.len() == 1 {
        parts[0]
    } else {
        joined(parts.drop_last(), separator) + separator + parts.last()
    }
}

/// The first place at or after `from` and before `to` at which `text` holds
/// one of the characters `stops`; `to` where it holds none there.
pub open spec fn first_stop(text: Seq<char>, stops: Seq<char>, from: int, to: int) -> int
    decreases to - from,
{
    if from >= to {
        to
    } else if stops.contains(text[from]) {
        from
    } else {
        first_stop(text, stops, from + 1, to)
    }
}

/// The place after the last `c` that `text` holds at or after `from` and
/// before `to`; `from` where it holds none there.
pub open spec fn after_last(text: Seq<char>, c: char, from: int, to: int) -> int
    decreases to - from,
{
    if to <= from {
        from
    } else if text[to - 1] == c {
        to
    } else {
        after_last(text, c, from, to - 1)
    }
}

/// The first place at or after `from` at which `needle` occurs in `text`;
/// the length of `text` where it occurs at none.
pub open spec fn first_occurrence(text: Seq<char>, needle: Seq<char>, from: int) -> int
    decreases text.len() - from,
{
    if from < 0 || from >= text.len() || from + needle.len() > text.len() {
        text.len() as int
    } else if occurs_at(text, needle, from) {
        from
    } else {
        first_occurrence(text, needle, from + 1)
    }
}

/// The characters of `s`, in order.
pub fn chars_of(s: &str) -> (v: Vec<char>)
    ensures
        v@ == s@,
{
    let mut v: Vec<char> = Vec::new();
    for c in it: s.chars()
        invariant
            v@ == it.seq().take(it.index() as int),
            it.seq() == s@,
    {
        v.push(c);
    }
    v
}

/// Whether two vectors hold the same characters.
pub fn same_chars(a: &Vec<char>, b: &Vec<char>) -> (r: bool)
    ensures
        r == (a@ == b@),
{
    if a.len() != b.len() {
        return false;
    }
    let mut i: usize = 0;
    while i < a.len()
        invariant
            i <= a.len(),
            a.len() == b.len(),
            forall|k: int| 0 <= k < i ==> a@[k] == b@[k],
        decreases a.len() - i,
    {
        if a[i] != b[i] {
            return false;
        }
        i += 1;
    }
    assert(a@ =~= b@);
    true
}

/// Whether two strings hold the same characters.
pub fn same_text(a: &str, b: &str) -> (r: bool)
    ensures
        r == (a@ == b@),
{
    let ca = chars_of(a);
    let cb = chars_of(b);
    same_chars(&ca, &cb)
}

/// Whether `needle` occurs in `hay` at position `at`.
pub fn matches_at(hay: &Vec<char>, needle: &Vec<char>, at: usize) -> (r: bool)
    ensures
        r == occurs_at(hay@, needle@, at as int),
{
    if needle.len() > hay.len() || at > hay.len() - needle.len() {
        return false;
    }
    let mut j: usize = 0;
    while j < needle.len()
        invariant
            j <= needle.len(),
            at + needle.len() <= hay.len(),
            forall|k: int| 0 <= k < j ==> hay@[at + k] == needle@[k],
        decreases needle.len() - j,
    {
        if hay[at + j] != needle[j] {
            assert(hay@.subrange(at as int, at + needle.len())[j as int] == hay@[at + j]);
            return false;
        }
        j += 1;
    }
    assert(hay@.subrange(at as int, at + needle.len()) =~= needle@);
    true
}

/// Whether `needle` occurs somewhere in `hay`.
pub fn contains(hay: &Vec<char>, needle: &Vec<char>) -> (r: bool)
    ensures
        r == is_substring(hay@, needle@),
{
    if needle.len() == 0 {
        assert(occurs_at(hay@, needle@, 0)) by {
            assert(hay@.subrange(0, 0) =~= needle@);
        }
        return true;
    }
    if needle.len() > hay.len() {
        return false;
    }
    let last: usize = hay.len() - needle.len();
    let mut i: usize = 0;
    while i <= last
        invariant
            i <= last + 1,
            0 < needle.len() <= hay.len(),
            last == hay.len() - needle.len(),
            forall|k: int| 0 <= k < i ==> !occurs_at(hay@, needle@, k),
        decreases last + 1 - i,
    {
        if matches_at(hay, needle, i) {
            return true;
        }
        i += 1;
    }
    false
}

/// Whether `needle` occurs somewhere in `hay`.
pub fn str_contains(hay: &str, needle: &str) -> (r: bool)
    ensures
        r == is_substring(hay@, needle@),
{
    let h = chars_of(hay);
    let n = chars_of(needle);
    contains(&h, &n)
}

/// Whether `s` begins with `prefix`.
pub fn starts_with(s: &Vec<char>, prefix: &Vec<char>) -> (r: bool)
    ensures
        r == has_prefix(s@, prefix@),
{
    matches_at(s, prefix, 0)
}

/// Whether `s` ends with `suffix`.
pub fn ends_with(s: &Vec<char>, suffix: &Vec<char>) -> (r: bool)
    ensures
        r == has_suffix(s@, suffix@),
{
    if suffix.len() > s.len() {
        return false;
    }
    matches_at(s, suffix, s.len() - suffix.len())
}

/// Whether one of `list` holds the characters of `wanted`.
pub fn list_contains(list: &Vec<String>, wanted: &str) -> (r: bool)
    ensures
        r == texts(list@).contains(wanted@),
{
    let mut i: usize = 0;
    while i < list.len()
        invariant
            i <= list.len(),
            forall|k: int| 0 <= k < i ==> texts(list@)[k] != wanted@,
        decreases list.len() - i,
    {
        if same_text(list[i].as_str(), wanted) {
            assert(texts(list@)[i as int] == wanted@);
            return true;
        }
        i += 1;
    }
    false
}

/// The first stop is the place `at` where no place before it holds one
/// of `stops` and `at` holds one or is the end.
pub proof fn lemma_first_stop_at(text: Seq<char>, stops: Seq<char>, from: int, to: int, at: int)
    requires
        0 <= from <= at <= to <= text.len(),
        forall|k: int| from <= k < at ==> !stops.contains(#[trigger] text[k]),
        at == to || stops.contains(text[at]),
    ensures
        first_stop(text, stops, from, to) == at,
    decreases at - from,
{
    if from < at {
        lemma_first_stop_at(text, stops, from + 1, to, at);
    }
}

/// Where `text` holds no `c` in a range, the place after the last one is
/// the beginning of the range.
pub proof fn lemma_after_last_absent(text: Seq<char>, c: char, from: int, to: int)
    requires
        0 <= from <= to <= text.len(),
        forall|k: int| from <= k < to ==> #[trigger] text[k] != c,
    ensures
        after_last(text, c, from, to) == from,
    decreases to - from,
{
    if from < to {
        lemma_after_last_absent(text, c, from, to - 1);
    }
}

/// The first occurrence is the place `at` where `needle` occurs and
/// occurs at no place before it.
pub proof fn lemma_first_occurrence_at(text: Seq<char>, needle: Seq<char>, from: int, at: int)
    requires
        0 <= from <= at < text.len(),
        occurs_at(text, needle, at),
        forall|k: int| from <= k < at ==> !occurs_at(text, needle, k),
    ensures
        first_occurrence(text, needle, from) == at,
    decreases at - from,
{
    if from < at {
        lemma_first_occurrence_at(text, needle, from + 1, at);
    }
}

/// Whether `stops` holds the character `c`.
pub fn holds_char(stops: &Vec<char>, c: char) -> (r: bool)
    ensures
        r == stops@.contains(c),
{
    let mut i: usize = 0;
    while i < stops.len()
        invariant
            i <= stops.len(),
            forall|k: int| 0 <= k < i ==> stops@[k] != c,
        decreases stops.len() - i,
    {
        if stops[i] == c {
            return true;
        }
        i += 1;
    }
    false
}

/// The first place in `from..to` at which `text` holds one of `stops`.
pub(crate) fn find_stop(text: &Vec<char>, stops: &Vec<char>, from: usize, to: usize) -> (r: usize)
    requires
        from <= to <= text.len(),
    ensures
        r == first_stop(text@, stops@, from as int, to as int),
        from <= r <= to,
{
    let mut i: usize = from;
    while i < to
        invariant
            from <= i <= to <= text.len(),
            first_stop(text@, stops@, from as int, to as int) == first_stop(
                text@,
                stops@,
                i as int,
                to as int,
            ),
        decreases to - i,
    {
        if holds_char(stops, text[i]) {
            return i;
        }
        i += 1;
    }
    i
}

/// The place after the last `c` that `text` holds in `from..to`.
pub(crate) fn find_after_last(text: &Vec<char>, c: char, from: usize, to: usize) -> (r: usize)
    requires
        from <= to <= text.len(),
    ensures
        r == after_last(text@, c, from as int, to as int),
        from <= r <= to,
{
    let mut j: usize = to;
    while j > from
        invariant
            from <= j <= to <= text.len(),
            after_last(text@, c, from as int, to as int) == after_last(
                text@,
                c,
                from as int,
                j as int,
            ),
        decreases j - from,
    {
        if text[j - 1] == c {
            return j;
        }
        j -= 1;
    }
    j
}

/// The first place at which `needle` occurs in `text`; the length of `text`
/// where it occurs nowhere.
pub fn find_occurrence(text: &Vec<char>, needle: &Vec<char>) -> (r: usize)
    ensures
        r == first_occurrence(text@, needle@, 0),
        r <= text.len(),
{
    if needle.len() > text.len() {
        return text.len();
    }
    if needle.len() == 0 {
        assert(occurs_at(text@, needle@, 0)) by {
            assert(text@.subrange(0, 0) =~= needle@);
        }
        return 0;
    }
    let last: usize = text.len() - needle.len();
    let mut i: usize = 0;
    while i <= last
        invariant
            i <= last + 1,
            0 < needle.len() <= text.len(),
            last == text.len() - needle.len(),
            first_occurrence(text@, needle@, 0) == first_occurrence(text@, needle@, i as int),
        decreases last + 1 - i,
    {
        if matches_at(text, needle, i) {
            return i;
        }
        i += 1;
    }
    text.len()
}

/// Whether the characters of `text` in `from..to` are those of `word`.
pub(crate) fn range_is(text: &Vec<char>, from: usize, to: usize, word: &Vec<char>) -> (r: bool)
    requires
        from <= to <= text.len(),
    ensures
        r == (text@.subrange(from as int, to as int) == word@),
{
    if to - from != word.len() {
        assert(text@.subrange(from as int, to as int).len() != word@.len());
        return false;
    }
    matches_at(text, word, from)
}

/// The first `count` strings of `parts` written one after the other with
/// `separator` between them.
pub(crate) fn join_first(parts: &Vec<String>, count: usize, separator: &str) -> (r: String)
    requires
        count <= parts.len(),
    ensures
        r@ == joined(texts(parts@).take(count as int), separator@),
{
    let mut r = String::new();
    let mut i: usize = 0;
    while i < count
        invariant
            i <= count <= parts.len(),
            r@ == joined(texts(parts@).take(i as int), separator@),
        decreases count - i,
    {
        proof {
            assert(texts(parts@).take(i + 1).drop_last() =~= texts(parts@).take(i as int));
            assert(texts(parts@).take(i + 1).last() == parts@[i as int]@);
        }
        if i > 0 {
            r = r.concat(separator);
        } else {
            assert(r@ + parts@[i as int]@ =~= parts@[i as int]@);
        }
        r = r.concat(parts[i].as_str());
        i += 1;
    }
    r
}

/// The strings of `parts` written one after the other with `separator`
/// between them.
pub fn join(parts: &Vec<String>, separator: &str) -> (r: String)
    ensures
        r@ == joined(texts(parts@), separator@),
{
    assert(texts(parts@).take(parts@.len() as int) =~= texts(parts@));
    join_first(parts, parts.len(), separator)
}

} // verus!
