//! What trimming, splitting and searching come to, said of how a text is put
//! together.

use vstd::prelude::*;

use crate::text::{self, Class};

verus! {

/// Whether every character of a text belongs to the class.
pub open spec fn is_all(s: Seq<char>, class: Class) -> bool {
    forall|i: int| 0 <= i < s.len() ==> class.holds(#[trigger] s[i])
}

/// Whether no character of a text belongs to the class.
pub open spec fn has_none(s: Seq<char>, class: Class) -> bool {
    forall|i: int| 0 <= i < s.len() ==> !class.holds(#[trigger] s[i])
}

/// What stands in front of the first character outside the class is taken off the
/// start, and nothing else is.
pub proof fn the_start_is_stripped(before: Seq<char>, kept: Seq<char>, class: Class)
    requires
        is_all(before, class),
        kept.len() > 0 ==> !class.holds(kept[0]),
    ensures
        text::strip_start(before + kept, class) == kept,
{
    let n = before.len() as int;
    let s = before + kept;
    assert forall|j: int| 0 <= j < n implies class.holds(#[trigger] s[j]) by {
        assert(s[j] == before[j]);
    }
    text::lemma_span(s, class, n);
    assert(s.skip(n) =~= kept);
}

/// What stands behind the last character outside the class is taken off the end,
/// and nothing else is.
pub proof fn the_end_is_stripped(kept: Seq<char>, behind: Seq<char>, class: Class)
    requires
        is_all(behind, class),
        kept.len() > 0 ==> !class.holds(kept.last()),
    ensures
        text::strip_end(kept + behind, class) == kept,
{
    let n = kept.len() as int;
    let s = kept + behind;
    assert forall|j: int| n <= j < s.len() implies class.holds(#[trigger] s[j]) by {
        assert(s[j] == behind[j - n]);
    }
    text::lemma_strip_end(s, class, n);
    assert(s.take(n) =~= kept);
}

/// Trimming takes the white space around a text and nothing inside it.
pub proof fn the_space_around_is_trimmed(before: Seq<char>, kept: Seq<char>, behind: Seq<char>)
    requires
        is_all(before, Class::Space),
        is_all(behind, Class::Space),
        kept.len() > 0 ==> !text::is_space(kept[0]) && !text::is_space(kept.last()),
    ensures
        text::trim(before + kept + behind) == kept,
{
    let s = before + kept + behind;
    if kept.len() > 0 {
        assert(s =~= before + (kept + behind));
        the_start_is_stripped(before, kept + behind, Class::Space);
    } else {
        let all = before + behind;
        assert forall|j: int| 0 <= j < all.len() implies text::is_space(#[trigger] all[j]) by {
            if j < before.len() {
                assert(Class::Space.holds(before[j]));
            } else {
                assert(Class::Space.holds(behind[j - before.len()]));
            }
        }
        assert(s =~= all + Seq::<char>::empty());
        the_start_is_stripped(all, seq![], Class::Space);
        assert(Seq::<char>::empty() =~= kept);
        assert(text::strip_end(kept, Class::Space) =~= kept);
        return ;
    }
    the_end_is_stripped(kept, behind, Class::Space);
}

/// A text is split at every character of the class: what stands before the first
/// is the first piece, and the rest is split the same way.
pub proof fn a_text_is_split_at_the_first(
    piece: Seq<char>,
    mark: char,
    rest: Seq<char>,
    class: Class,
)
    requires
        has_none(piece, class),
        class.holds(mark),
    ensures
        text::split(piece + seq![mark] + rest, class) == seq![piece] + text::split(rest, class),
        text::until(piece + seq![mark] + rest, class) == piece.len(),
{
    let s = piece + seq![mark] + rest;
    let n = piece.len() as int;
    assert forall|j: int| 0 <= j < n implies !class.holds(#[trigger] s[j]) by {
        assert(s[j] == piece[j]);
    }
    assert(s[n] == mark);
    text::lemma_until(s, class, n);
    assert(s.take(n) =~= piece);
    assert(s.skip(n + 1) =~= rest);
}

/// A text without a character of the class is one piece.
pub proof fn a_text_without_a_mark_is_whole(piece: Seq<char>, class: Class)
    requires
        has_none(piece, class),
    ensures
        text::split(piece, class) == seq![piece],
        text::until(piece, class) == piece.len(),
{
    text::lemma_until(piece, class, piece.len() as int);
}

/// A text contains another exactly where it is that one with something before it
/// and something behind it.
pub proof fn containing_is_having_a_before_and_a_behind(s: Seq<char>, t: Seq<char>)
    ensures
        text::contains(s, t) <==> exists|before: Seq<char>, behind: Seq<char>|
            s == #[trigger] (before + t + behind),
{
    if text::contains(s, t) {
        let i = choose|i: int|
            0 <= i <= s.len() - t.len() && #[trigger] s.subrange(i, i + t.len()) == t;
        let before = s.take(i);
        let behind = s.skip(i + t.len());
        assert forall|j: int| 0 <= j < s.len() implies s[j] == (before + t + behind)[j] by {
            if i <= j < i + t.len() {
                assert(s.subrange(i, i + t.len())[j - i] == s[j]);
            }
        }
        assert(s =~= before + t + behind);
    }
    if exists|before: Seq<char>, behind: Seq<char>| s == #[trigger] (before + t + behind) {
        let (before, behind) = choose|before: Seq<char>, behind: Seq<char>|
            s == #[trigger] (before + t + behind);
        let i = before.len() as int;
        assert(s.subrange(i, i + t.len()) =~= t);
    }
}

/// A text with something around it is contained in what that makes.
pub proof fn what_is_put_in_is_contained(before: Seq<char>, t: Seq<char>, behind: Seq<char>)
    ensures
        text::contains(before + t + behind, t),
{
    let s = before + t + behind;
    let i = before.len() as int;
    assert(s.subrange(i, i + t.len()) =~= t);
}

/// A text ends with another exactly where it is that one with something before
/// it, and starts with it exactly where it is that one with something behind it.
pub proof fn starting_and_ending(s: Seq<char>, t: Seq<char>)
    ensures
        text::ends_with(s, t) <==> exists|before: Seq<char>| s == #[trigger] (before + t),
        text::starts_with(s, t) <==> exists|behind: Seq<char>| s == #[trigger] (t + behind),
{
    if text::ends_with(s, t) {
        assert(s =~= s.take(s.len() - t.len()) + t);
    }
    if exists|before: Seq<char>| s == #[trigger] (before + t) {
        let before = choose|before: Seq<char>| s == #[trigger] (before + t);
        assert(s.skip(s.len() - t.len()) =~= t);
    }
    if text::starts_with(s, t) {
        assert(s =~= t + s.skip(t.len() as int));
    }
    if exists|behind: Seq<char>| s == #[trigger] (t + behind) {
        let behind = choose|behind: Seq<char>| s == #[trigger] (t + behind);
        assert(s.take(t.len() as int) =~= t);
    }
}

/// The characters that each class is of: white space has those that text files
/// have between words and lines, and none that a word, a version or a path is
/// made of; the other classes have the characters they are named after.
pub proof fn each_class_has_its_characters(c: char)
    ensures
        c == ' ' || c == '\t' || c == '\n' || c == '\r' ==> Class::Space.holds(c),
        '!' <= c <= '~' ==> !Class::Space.holds(c),
        Class::SmallV.holds(c) <==> c == 'v',
        Class::AnyV.holds(c) <==> c == 'v' || c == 'V',
        Class::Suffix.holds(c) <==> c == '-' || c == '+',
        Class::Dot.holds(c) <==> c == '.',
        Class::Slash.holds(c) <==> c == '/',
        Class::LineFeed.holds(c) <==> c == '\n',
{
}

} // verus!
