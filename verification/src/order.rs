//! The order in which entries are shown: folders before files, dated files
//! by date with the latest first, then by name without regard to case; and
//! stored sessions with the latest first.

use crate::text::{chars_of, opt_text};
use vstd::prelude::*;

verus! {

/// Whether the text `a` stands at or before `b` in the order of the
/// dictionary, where characters go by their code: at the first place where
/// the two differ `a` has the smaller character, or `a` ends there.
pub open spec fn text_le(a: Seq<char>, b: Seq<char>) -> bool
    decreases a.len(),
{
    if a.len() == 0 {
        true
    } else if b.len() == 0 {
        false
    } else if a[0] == b[0] {
        text_le(a.drop_first(), b.drop_first())
    } else {
        (a[0] as u32) < (b[0] as u32)
    }
}

/// Different characters have different codes.
proof fn lemma_codes_differ(x: char, y: char)
    requires
        x != y,
    ensures
        (x as u32) != (y as u32),
{
    assert((x as u32) as char == x);
    assert((y as u32) as char == y);
}

/// Of two texts one stands at or before the other.
pub proof fn lemma_text_le_total(a: Seq<char>, b: Seq<char>)
    ensures
        text_le(a, b) || text_le(b, a),
    decreases a.len(),
{
    if a.len() > 0 && b.len() > 0 {
        if a[0] == b[0] {
            lemma_text_le_total(a.drop_first(), b.drop_first());
        } else {
            lemma_codes_differ(a[0], b[0]);
        }
    }
}

/// Two texts that stand at or before each other are the same text.
pub proof fn lemma_text_le_antisymmetric(a: Seq<char>, b: Seq<char>)
    requires
        text_le(a, b),
        text_le(b, a),
    ensures
        a == b,
    decreases a.len(),
{
    if a.len() == 0 || b.len() == 0 {
        assert(a =~= b);
    } else {
        assert(a[0] == b[0]);
        lemma_text_le_antisymmetric(a.drop_first(), b.drop_first());
        assert(a =~= seq![a[0]] + a.drop_first());
        assert(b =~= seq![b[0]] + b.drop_first());
    }
}

/// The order of texts is transitive.
pub proof fn lemma_text_le_transitive(a: Seq<char>, b: Seq<char>, c: Seq<char>)
    requires
        text_le(a, b),
        text_le(b, c),
    ensures
        text_le(a, c),
    decreases a.len(),
{
    if a.len() > 0 {
        if a[0] == b[0] && b[0] == c[0] {
            lemma_text_le_transitive(a.drop_first(), b.drop_first(), c.drop_first());
        }
    }
}

/// Every text stands at or before itself.
pub proof fn lemma_text_le_reflexive(a: Seq<char>)
    ensures
        text_le(a, a),
    decreases a.len(),
{
    if a.len() > 0 {
        lemma_text_le_reflexive(a.drop_first());
    }
}

/// Whether the characters `a` stand at or before `b` in the order of texts.
pub fn chars_le(a: &Vec<char>, b: &Vec<char>) -> (r: bool)
    ensures
        r == text_le(a@, b@),
{
    let mut i: usize = 0;
    assert(a@.skip(0) =~= a@ && b@.skip(0) =~= b@);
    while i < a.len()
        invariant
            i <= a.len(),
            i <= b.len(),
            text_le(a@, b@) == text_le(a@.skip(i as int), b@.skip(i as int)),
        decreases a.len() - i,
    {
        if i >= b.len() {
            return false;
        }
        proof {
            assert(a@.skip(i as int)[0] == a@[i as int]);
            assert(b@.skip(i as int)[0] == b@[i as int]);
            assert(a@.skip(i as int).drop_first() =~= a@.skip(i + 1));
            assert(b@.skip(i as int).drop_first() =~= b@.skip(i + 1));
        }
        if a[i] != b[i] {
            return (a[i] as u32) < (b[i] as u32);
        }
        i += 1;
    }
    true
}

/// Whether the text `a` stands at or before `b` in the order of texts.
pub fn str_le(a: &str, b: &str) -> (r: bool)
    ensures
        r == text_le(a@, b@),
{
    chars_le(&chars_of(a), &chars_of(b))
}

/// What the place of an entry among the others depends on.
#[derive(Debug)]
pub struct EntryKey {
    pub is_folder: bool,
    /// The date of a dated file.
    pub date: Option<String>,
    /// The name by which the entry is sorted.
    pub name: String,
}

/// What an `EntryKey` holds, as character sequences.
pub struct EntryKeyView {
    pub is_folder: bool,
    pub date: Option<Seq<char>>,
    pub name: Seq<char>,
}

impl View for EntryKey {
    type V = EntryKeyView;

    open spec fn view(&self) -> EntryKeyView {
        EntryKeyView { is_folder: self.is_folder, date: opt_text(self.date), name: self.name@ }
    }
}

/// The text in lower case.
pub uninterp spec fn lowercase(text: Seq<char>) -> Seq<char>;

/// `str::to_lowercase`: the text with every character replaced by its
/// lower case form. The result depends on the text alone, which is all the
/// contract claims.
pub assume_specification[ str::to_lowercase ](text: &str) -> (lower: String)
    ensures
        lower@ == lowercase(text@),
;

/// The key of an entry that is sorted by `name` without regard to case.
pub fn entry_key(is_folder: bool, date: Option<String>, name: &str) -> (key: EntryKey)
    ensures
        key@ == (EntryKeyView { is_folder, date: opt_text(date), name: lowercase(name@) }),
{
    EntryKey { is_folder, date, name: name.to_lowercase() }
}

/// Whether an entry with key `a` may stand before one with key `b`. Folders
/// stand before files. Folders go by name. Of two files with a date the one
/// with the later date stands first, and with the same date they go by
/// name. A file with a date stands before one without. Files without a date
/// go by name.
pub open spec fn key_le(a: EntryKeyView, b: EntryKeyView) -> bool {
    if a.is_folder != b.is_folder {
        a.is_folder
    } else if a.is_folder {
        text_le(a.name, b.name)
    } else {
        match (a.date, b.date) {
            (Some(da), Some(db)) => if da == db {
                text_le(a.name, b.name)
            } else {
                text_le(db, da)
            },
            (Some(_), None) => true,
            (None, Some(_)) => false,
            (None, None) => text_le(a.name, b.name),
        }
    }
}

/// Of two keys one may stand before the other.
pub proof fn lemma_key_le_total(a: EntryKeyView, b: EntryKeyView)
    ensures
        key_le(a, b) || key_le(b, a),
{
    lemma_text_le_total(a.name, b.name);
    match (a.date, b.date) {
        (Some(da), Some(db)) => {
            lemma_text_le_total(da, db);
        },
        _ => {},
    }
}

/// The order of keys is transitive.
pub proof fn lemma_key_le_transitive(a: EntryKeyView, b: EntryKeyView, c: EntryKeyView)
    requires
        key_le(a, b),
        key_le(b, c),
    ensures
        key_le(a, c),
{
    if a.is_folder == b.is_folder && b.is_folder == c.is_folder {
        if a.is_folder {
            lemma_text_le_transitive(a.name, b.name, c.name);
        } else {
            match (a.date, b.date, c.date) {
                (Some(da), Some(db), Some(dc)) => {
                    if da == db && db == dc {
                        lemma_text_le_transitive(a.name, b.name, c.name);
                    } else if da == db {
                    } else if db == dc {
                    } else {
                        lemma_text_le_transitive(dc, db, da);
                        if da == dc {
                            lemma_text_le_antisymmetric(db, da);
                        }
                    }
                },
                (None, None, None) => {
                    lemma_text_le_transitive(a.name, b.name, c.name);
                },
                _ => {},
            }
        }
    }
}

/// A key by which items are put in order.
trait Key: Sized {
    /// An item with key `self` may stand before one with key `other`.
    spec fn at_most(&self, other: &Self) -> bool;

    fn le(&self, other: &Self) -> (r: bool)
        ensures
            r == self.at_most(other),
    ;

    proof fn total(a: &Self, b: &Self)
        ensures
            a.at_most(b) || b.at_most(a),
    ;

    proof fn transitive(a: &Self, b: &Self, c: &Self)
        requires
            a.at_most(b),
            b.at_most(c),
        ensures
            a.at_most(c),
    ;
}

impl Key for EntryKey {
    spec fn at_most(&self, other: &Self) -> bool {
        key_le(self@, other@)
    }

    fn le(&self, other: &Self) -> (r: bool) {
        if self.is_folder != other.is_folder {
            self.is_folder
        } else if self.is_folder {
            str_le(self.name.as_str(), other.name.as_str())
        } else {
            match (&self.date, &other.date) {
                (Some(da), Some(db)) => {
                    if crate::text::same_text(da.as_str(), db.as_str()) {
                        str_le(self.name.as_str(), other.name.as_str())
                    } else {
                        str_le(db.as_str(), da.as_str())
                    }
                },
                (Some(_), None) => true,
                (None, Some(_)) => false,
                (None, None) => str_le(self.name.as_str(), other.name.as_str()),
            }
        }
    }

    proof fn total(a: &Self, b: &Self) {
        lemma_key_le_total(a@, b@);
    }

    proof fn transitive(a: &Self, b: &Self, c: &Self) {
        lemma_key_le_transitive(a@, b@, c@);
    }
}

/// A moment by which items are put in order, the latest first.
struct Latest(u64);

impl Key for Latest {
    spec fn at_most(&self, other: &Self) -> bool {
        self.0 >= other.0
    }

    fn le(&self, other: &Self) -> (r: bool) {
        self.0 >= other.0
    }

    proof fn total(a: &Self, b: &Self) {
    }

    proof fn transitive(a: &Self, b: &Self, c: &Self) {
    }
}

/// Whether `out` holds the items of `input` put in order without changing
/// the order of items that may stand either way: `out[i]` is the item
/// `input[from[i]]`, every item of `input` is taken once, every item of
/// `out` may stand before the ones after it, and of two items that may
/// stand either way the one that came first in `input` stands first.
pub open spec fn is_stable_sort<A>(
    out: Seq<A>,
    input: Seq<A>,
    from: Seq<int>,
    le: spec_fn(A, A) -> bool,
) -> bool {
    &&& out.len() == input.len()
    &&& from.len() == input.len()
    &&& forall|i: int|
        0 <= i < out.len() ==> 0 <= #[trigger] from[i] < input.len() && out[i] == input[from[i]]
    &&& forall|i: int, j: int|
        0 <= i < j < out.len() ==> #[trigger] from[i] != #[trigger] from[j]
    &&& forall|i: int, j: int|
        0 <= i < j < out.len() ==> le(#[trigger] out[i], #[trigger] out[j]) && (le(out[j], out[i])
            ==> from[i] < from[j])
}

/// Puts items in the order of their keys, keeping the order of items whose
/// keys may stand either way.
fn stable_sort<K: Key, T>(items: Vec<(K, T)>) -> (r: (Vec<(K, T)>, Ghost<Seq<int>>))
    ensures
        is_stable_sort(r.0@, items@, r.1@, |a: (K, T), b: (K, T)| a.0.at_most(&b.0)),
{
    let ghost le = |a: (K, T), b: (K, T)| a.0.at_most(&b.0);
    let mut out: Vec<(K, T)> = Vec::new();
    let ghost mut from: Seq<int> = Seq::empty();
    for item in it: items
        invariant
            it.seq() == items@,
            le == |a: (K, T), b: (K, T)| a.0.at_most(&b.0),
            is_stable_sort(out@, items@.take(it.index() as int), from, le),
    {
        let ghost n = it.index() as int;
        let ghost before = out@;
        let ghost from_before = from;
        let mut p: usize = out.len();
        while p > 0 && !out[p - 1].0.le(&item.0)
            invariant
                p <= out.len(),
                out@ == before,
                forall|q: int| p <= q < out.len() ==> !(#[trigger] out@[q]).0.at_most(&item.0),
            decreases p,
        {
            p -= 1;
        }
        out.insert(p, item);
        proof {
            from = from_before.insert(p as int, n);
            let input = items@.take(n + 1);
            assert(items@.take(n) =~= input.take(n));
            assert(input[n] == item);
            assert forall|i: int| 0 <= i < out@.len() implies 0 <= #[trigger] from[i] < input.len()
                && out@[i] == input[from[i]] by {
                if i < p {
                    assert(from[i] == from_before[i]);
                    assert(out@[i] == before[i]);
                } else if i > p {
                    assert(from[i] == from_before[i - 1]);
                    assert(out@[i] == before[i - 1]);
                }
            }
            assert forall|i: int, j: int| 0 <= i < j < out@.len() implies #[trigger] from[i]
                != #[trigger] from[j] by {
                let fi = if i < p {
                    from_before[i]
                } else if i == p {
                    n
                } else {
                    from_before[i - 1]
                };
                let fj = if j < p {
                    from_before[j]
                } else if j == p {
                    n
                } else {
                    from_before[j - 1]
                };
                assert(from[i] == fi && from[j] == fj);
            }
            assert forall|i: int, j: int| 0 <= i < j < out@.len() implies le(
                #[trigger] out@[i],
                #[trigger] out@[j],
            ) && (le(out@[j], out@[i]) ==> from[i] < from[j]) by {
                if j == p {
                    // out[i] stood before the place of the new item
                    assert(out@[i] == before[i]);
                    assert(from[i] == from_before[i]);
                    if p > 0 {
                        assert(before[p - 1].0.at_most(&item.0));
                        if i < p - 1 {
                            assert(le(before[i], before[p - 1]));
                            K::transitive(&before[i].0, &before[p - 1].0, &item.0);
                        }
                    }
                } else if i == p {
                    // out[j] stood at or after the place of the new item
                    assert(out@[j] == before[j - 1]);
                    assert(!before[j - 1].0.at_most(&item.0));
                    K::total(&before[j - 1].0, &item.0);
                } else {
                    let bi = if i < p {
                        i
                    } else {
                        i - 1
                    };
                    let bj = if j < p {
                        j
                    } else {
                        j - 1
                    };
                    assert(out@[i] == before[bi] && out@[j] == before[bj]);
                    assert(from[i] == from_before[bi] && from[j] == from_before[bj]);
                    assert(le(before[bi], before[bj]));
                }
            }
        }
    }
    proof {
        assert(items@.take(items@.len() as int) =~= items@);
    }
    (out, Ghost(from))
}

/// Whether an entry may stand before another, by their keys.
pub open spec fn entry_le<T>() -> spec_fn((EntryKey, T), (EntryKey, T)) -> bool {
    |a: (EntryKey, T), b: (EntryKey, T)| key_le(a.0@, b.0@)
}

/// Puts entries in the order in which they are shown. Entries whose keys
/// may stand either way keep the order in which they came.
pub fn sort_entries<T>(items: Vec<(EntryKey, T)>) -> (out: Vec<(EntryKey, T)>)
    ensures
        exists|from: Seq<int>| is_stable_sort(out@, items@, from, entry_le::<T>()),
{
    let (out, Ghost(from)) = stable_sort(items);
    proof {
        let le = |a: (EntryKey, T), b: (EntryKey, T)| a.0.at_most(&b.0);
        assert forall|i: int, j: int| 0 <= i < j < out@.len() implies entry_le::<T>()(
            #[trigger] out@[i],
            #[trigger] out@[j],
        ) && (entry_le::<T>()(out@[j], out@[i]) ==> from[i] < from[j]) by {
            assert(le(out@[i], out@[j]));
        }
        assert(is_stable_sort(out@, items@, from, entry_le::<T>()));
    }
    out
}

/// Whether an item may stand before another, by their moments: the later
/// one first.
pub open spec fn latest_first<T>() -> spec_fn((u64, T), (u64, T)) -> bool {
    |a: (u64, T), b: (u64, T)| a.0 >= b.0
}

/// Puts items in the order of their moments, the latest first. Items of
/// the same moment keep the order in which they came.
pub fn sort_latest_first<T>(items: Vec<(u64, T)>) -> (out: Vec<(u64, T)>)
    ensures
        exists|from: Seq<int>| is_stable_sort(out@, items@, from, latest_first::<T>()),
{
    let mut keyed: Vec<(Latest, T)> = Vec::new();
    for item in it: items
        invariant
            it.seq() == items@,
            keyed@.len() == it.index(),
            forall|i: int|
                0 <= i < keyed@.len() ==> (#[trigger] keyed@[i]).0.0 == items@[i].0 && keyed@[i].1
                    == items@[i].1,
    {
        keyed.push((Latest(item.0), item.1));
    }
    let (sorted, Ghost(from)) = stable_sort(keyed);
    let mut out: Vec<(u64, T)> = Vec::new();
    for item in it: sorted
        invariant
            it.seq() == sorted@,
            out@.len() == it.index(),
            forall|i: int|
                0 <= i < out@.len() ==> (#[trigger] out@[i]).0 == sorted@[i].0.0 && out@[i].1
                    == sorted@[i].1,
    {
        out.push((item.0.0, item.1));
    }
    proof {
        let le = |a: (Latest, T), b: (Latest, T)| a.0.at_most(&b.0);
        assert forall|i: int| 0 <= i < out@.len() implies 0 <= #[trigger] from[i] < items@.len()
            && out@[i] == items@[from[i]] by {
            assert(sorted@[i] == keyed@[from[i]]);
        }
        assert forall|i: int, j: int| 0 <= i < j < out@.len() implies latest_first::<T>()(
            #[trigger] out@[i],
            #[trigger] out@[j],
        ) && (latest_first::<T>()(out@[j], out@[i]) ==> from[i] < from[j]) by {
            assert(le(sorted@[i], sorted@[j]));
        }
        assert(is_stable_sort(out@, items@, from, latest_first::<T>()));
    }
    out
}

} // verus!
