//! Strings: their order, ordered listings of them, and trimming.

use vstd::prelude::*;
use vstd::std_specs::iter::IteratorSpec;

verus! {

/// `a` stands before `b` in the order of `str`: by the first character that differs, a proper
/// prefix first.
pub open spec fn precedes(a: Seq<char>, b: Seq<char>) -> bool
    decreases a.len(),
{
    if b.len() == 0 {
        false
    } else if a.len() == 0 {
        true
    } else if a[0] != b[0] {
        (a[0] as u32) < (b[0] as u32)
    } else {
        precedes(a.drop_first(), b.drop_first())
    }
}

/// Each text of `texts` stands before all that follow it; so none occurs twice.
pub open spec fn ascending(texts: Seq<Seq<char>>) -> bool {
    forall|i: int, j: int|
        0 <= i < j < texts.len() ==> precedes(#[trigger] texts[i], #[trigger] texts[j])
}

/// The texts of a finite set, in ascending order.
pub open spec fn listing(texts: Set<Seq<char>>) -> Seq<Seq<char>> {
    choose|list: Seq<Seq<char>>| ascending(list) && list.to_set() == texts
}

/// What a sequence of strings holds.
pub open spec fn texts(strings: Seq<String>) -> Seq<Seq<char>> {
    strings.map_values(|string: String| string@)
}

/// What a sequence of pairs of strings holds.
pub open spec fn text_pairs(pairs: Seq<(String, String)>) -> Seq<(Seq<char>, Seq<char>)> {
    pairs.map_values(|pair: (String, String)| (pair.0@, pair.1@))
}

/// What an optional string holds.
pub open spec fn optional_text(string: Option<String>) -> Option<Seq<char>> {
    match string {
        Some(string) => Some(string@),
        None => None,
    }
}

/// What an optional string slice holds.
pub open spec fn optional_str(string: Option<&str>) -> Option<Seq<char>> {
    match string {
        Some(string) => Some(string@),
        None => None,
    }
}

/// A character with the Unicode property White_Space.
pub open spec fn white_space(c: char) -> bool {
    let code = c as u32;
    ||| 0x9 <= code <= 0xd
    ||| code == 0x20
    ||| code == 0x85
    ||| code == 0xa0
    ||| code == 0x1680
    ||| 0x2000 <= code <= 0x200a
    ||| code == 0x2028
    ||| code == 0x2029
    ||| code == 0x202f
    ||| code == 0x205f
    ||| code == 0x3000
}

/// `text` without the white space it begins with.
pub open spec fn trimmed_start(text: Seq<char>) -> Seq<char>
    decreases text.len(),
{
    if text.len() > 0 && white_space(text[0]) {
        trimmed_start(text.drop_first())
    } else {
        text
    }
}

/// `text` without the white space it ends with.
pub open spec fn trimmed_end(text: Seq<char>) -> Seq<char>
    decreases text.len(),
{
    if text.len() > 0 && white_space(text.last()) {
        trimmed_end(text.drop_last())
    } else {
        text
    }
}

/// `text` without the white space around it.
pub open spec fn trimmed(text: Seq<char>) -> Seq<char> {
    trimmed_end(trimmed_start(text))
}

/// The text that `String::from_utf8_lossy` makes of `bytes`.
pub uninterp spec fn utf8_lossy(bytes: Seq<u8>) -> Seq<char>;

/// `str::trim` takes away the characters with the property White_Space at both ends.
pub assume_specification[ str::trim ](text: &str) -> (inner: &str)
    ensures
        inner@ == trimmed(text@),
;

/// Gives what `String::from_utf8_lossy` makes of `bytes`: where they are UTF-8, the text they
/// encode. What stands in for bytes that are not UTF-8 is left to the name `utf8_lossy`.
#[verifier::external_body]
pub(crate) fn from_utf8_lossy(bytes: &[u8]) -> (text: String)
    ensures
        text@ == utf8_lossy(bytes@),
        vstd::utf8::valid_utf8(bytes@) ==> text@ == vstd::utf8::decode_utf8(bytes@),
{
    String::from_utf8_lossy(bytes).into_owned()
}

/// No text stands before itself.
pub proof fn lemma_precedes_irreflexive(a: Seq<char>)
    ensures
        !precedes(a, a),
    decreases a.len(),
{
    if a.len() > 0 {
        lemma_precedes_irreflexive(a.drop_first());
    }
}

/// The order of texts is transitive.
pub proof fn lemma_precedes_transitive(a: Seq<char>, b: Seq<char>, c: Seq<char>)
    requires
        precedes(a, b),
        precedes(b, c),
    ensures
        precedes(a, c),
    decreases a.len(),
{
    if a.len() > 0 && a[0] == b[0] && b[0] == c[0] {
        lemma_precedes_transitive(a.drop_first(), b.drop_first(), c.drop_first());
    }
}

/// Different characters have different code points.
proof fn lemma_code_points_differ(a: char, b: char)
    requires
        a != b,
    ensures
        a as u32 != b as u32,
{
    vstd::utf8::char_u32_cast(a, a as u32);
    vstd::utf8::char_u32_cast(b, b as u32);
}

/// Of two different texts one stands before the other.
pub proof fn lemma_precedes_total(a: Seq<char>, b: Seq<char>)
    ensures
        a == b || precedes(a, b) || precedes(b, a),
    decreases a.len(),
{
    if a.len() == 0 || b.len() == 0 {
        if a.len() == 0 && b.len() == 0 {
            assert(a =~= b);
        }
    } else if a[0] == b[0] {
        lemma_precedes_total(a.drop_first(), b.drop_first());
        if a.drop_first() == b.drop_first() {
            assert(a =~= seq![a[0]] + a.drop_first());
            assert(b =~= seq![b[0]] + b.drop_first());
        }
    } else {
        lemma_code_points_differ(a[0], b[0]);
    }
}

/// Two ascending sequences of the same texts are equal.
pub proof fn lemma_ascending_unique(a: Seq<Seq<char>>, b: Seq<Seq<char>>)
    requires
        ascending(a),
        ascending(b),
        a.to_set() == b.to_set(),
    ensures
        a == b,
    decreases a.len(),
{
    if a.len() == 0 {
        if b.len() > 0 {
            assert(b.to_set().contains(b[0]));
            assert(a.contains(b[0]));
        }
        assert(a =~= b);
    } else {
        assert(a.to_set().contains(a.last()));
        assert(b.contains(a.last()));
        let j = choose|j: int| 0 <= j < b.len() && b[j] == a.last();
        assert(b.to_set().contains(b.last()));
        assert(a.contains(b.last()));
        let i = choose|i: int| 0 <= i < a.len() && a[i] == b.last();
        if j < b.len() - 1 {
            lemma_precedes_irreflexive(b.last());
            if i < a.len() - 1 {
                lemma_precedes_transitive(a[i], a.last(), b.last());
            }
        }
        assert(a.last() == b.last());
        lemma_without_last(a);
        lemma_without_last(b);
        lemma_ascending_unique(a.drop_last(), b.drop_last());
        assert(a =~= a.drop_last().push(a.last()));
        assert(b =~= b.drop_last().push(b.last()));
    }
}

/// Without its last text an ascending sequence holds all others.
proof fn lemma_without_last(list: Seq<Seq<char>>)
    requires
        ascending(list),
        list.len() > 0,
    ensures
        ascending(list.drop_last()),
        list.drop_last().to_set() == list.to_set().remove(list.last()),
{
    lemma_precedes_irreflexive(list.last());
    assert forall|text: Seq<char>|
        list.to_set().remove(list.last()).contains(
            text,
        ) implies list.drop_last().to_set().contains(text) by {
        let i = choose|i: int| 0 <= i < list.len() && list[i] == text;
        assert(list.drop_last()[i] == text);
    }
    assert forall|text: Seq<char>|
        list.drop_last().to_set().contains(text) implies list.to_set().remove(
        list.last(),
    ).contains(text) by {
        let i = choose|i: int| 0 <= i < list.drop_last().len() && list.drop_last()[i] == text;
        assert(list[i] == text);
    }
    assert(list.drop_last().to_set() =~= list.to_set().remove(list.last()));
}

/// An ascending sequence is the listing of its texts.
pub proof fn lemma_listing(list: Seq<Seq<char>>)
    requires
        ascending(list),
    ensures
        listing(list.to_set()) == list,
{
    let chosen = listing(list.to_set());
    assert(ascending(chosen) && chosen.to_set() == list.to_set());
    lemma_ascending_unique(chosen, list);
}

/// A text put at its place in an ascending sequence leaves it ascending.
proof fn lemma_inserted(list: Seq<Seq<char>>, at: int, text: Seq<char>)
    requires
        ascending(list),
        0 <= at <= list.len(),
        forall|i: int| 0 <= i < at ==> precedes(#[trigger] list[i], text),
        at < list.len() ==> precedes(text, list[at]),
    ensures
        ascending(list.insert(at, text)),
        list.insert(at, text).to_set() == list.to_set().insert(text),
{
    let after = list.insert(at, text);
    assert forall|i: int, j: int| 0 <= i < j < after.len() implies precedes(
        #[trigger] after[i],
        #[trigger] after[j],
    ) by {
        if i == at {
            assert(after[j] == list[j - 1]);
            if j - 1 > at {
                lemma_precedes_transitive(text, list[at], list[j - 1]);
            }
        } else if j == at {
            assert(after[i] == list[i]);
        } else {
            let p = if i < at { i } else { i - 1 };
            let q = if j < at { j } else { j - 1 };
            assert(after[i] == list[p]);
            assert(after[j] == list[q]);
        }
    }
    assert forall|t: Seq<char>| list.to_set().insert(text).contains(t) implies after.to_set().contains(
        t,
    ) by {
        if t == text {
            assert(after[at] == t);
        } else {
            let i = choose|i: int| 0 <= i < list.len() && list[i] == t;
            assert(after[if i < at { i } else { i + 1 }] == t);
        }
    }
    assert forall|t: Seq<char>| after.to_set().contains(t) implies list.to_set().insert(
        text,
    ).contains(t) by {
        let i = choose|i: int| 0 <= i < after.len() && after[i] == t;
        if i != at {
            let p = if i < at { i } else { i - 1 };
            assert(list[p] == t);
        }
    }
    assert(after.to_set() =~= list.to_set().insert(text));
}

/// Gives the place of a text in an ascending sequence.
proof fn lemma_place(list: Seq<Seq<char>>, text: Seq<char>) -> (at: int)
    requires
        ascending(list),
    ensures
        0 <= at <= list.len(),
        forall|i: int| 0 <= i < at ==> precedes(#[trigger] list[i], text),
        at < list.len() ==> !precedes(list[at], text),
    decreases list.len(),
{
    if list.len() == 0 {
        0
    } else if precedes(list.last(), text) {
        assert forall|i: int| 0 <= i < list.len() implies precedes(#[trigger] list[i], text) by {
            if i < list.len() - 1 {
                lemma_precedes_transitive(list[i], list.last(), text);
            }
        }
        list.len() as int
    } else {
        let at = lemma_place(list.drop_last(), text);
        assert forall|i: int| 0 <= i < at implies precedes(#[trigger] list[i], text) by {
            assert(list.drop_last()[i] == list[i]);
        }
        at
    }
}

/// The listing of a finite set is ascending and holds exactly the texts of the set.
pub proof fn lemma_finite_listing(texts: Set<Seq<char>>)
    requires
        texts.finite(),
    ensures
        ascending(listing(texts)),
        listing(texts).to_set() == texts,
    decreases texts.len(),
{
    if texts.len() == 0 {
        let nothing: Seq<Seq<char>> = seq![];
        assert(nothing.to_set() =~= texts);
        lemma_listing(nothing);
    } else {
        let text = texts.choose();
        let fewer = listing(texts.remove(text));
        lemma_finite_listing(texts.remove(text));
        let at = lemma_place(fewer, text);
        if at < fewer.len() {
            assert(fewer.to_set().contains(fewer[at]));
            lemma_precedes_total(fewer[at], text);
        }
        lemma_inserted(fewer, at, text);
        assert(fewer.insert(at, text).to_set() =~= texts);
        lemma_listing(fewer.insert(at, text));
    }
}

/// Tells whether `a` stands before `b`.
pub fn str_precedes(a: &str, b: &str) -> (before: bool)
    ensures
        before == precedes(a@, b@),
{
    let mut left = a.chars();
    let mut right = b.chars();
    loop
        invariant
            precedes(a@, b@) == precedes(left.remaining(), right.remaining()),
            right.decrease() is Some,
        decreases right.decrease()->0,
    {
        match right.next() {
            None => {
                return false;
            },
            Some(y) => {
                match left.next() {
                    None => {
                        return true;
                    },
                    Some(x) => {
                        if x != y {
                            return (x as u32) < (y as u32);
                        }
                    },
                }
            },
        }
    }
}

/// Puts `text` into an ascending vector at its place, unless it is there already.
pub fn insert_ascending(list: &mut Vec<String>, text: String)
    requires
        ascending(texts(old(list)@)),
    ensures
        ascending(texts(final(list)@)),
        texts(final(list)@).to_set() == texts(old(list)@).to_set().insert(text@),
{
    let ghost before = texts(list@);
    let mut at: usize = 0;
    while at < list.len() && str_precedes(list[at].as_str(), text.as_str())
        invariant
            before == texts(list@),
            0 <= at <= list.len(),
            forall|i: int| 0 <= i < at ==> precedes(#[trigger] before[i], text@),
        ensures
            at < list.len() ==> !precedes(before[at as int], text@),
        decreases list.len() - at,
    {
        at = at + 1;
    }
    if at < list.len() && list[at] == text {
        assert(before[at as int] == text@);
        assert(before.to_set() =~= before.to_set().insert(text@)) by {
            assert(before.contains(text@));
        }
        return ;
    }
    let ghost inserted = text@;
    list.insert(at, text);
    proof {
        if at < before.len() {
            lemma_precedes_total(before[at as int], inserted);
        }
        lemma_inserted(before, at as int, inserted);
        assert(texts(list@) =~= before.insert(at as int, inserted));
    }
}

} // verus!
