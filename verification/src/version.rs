//! Dotted versions, and which of two is the newer.

use vstd::prelude::*;

use crate::text::{self, Class};

verus! {

/// Whether `c` is a decimal digit.
pub open spec fn is_digit(c: char) -> bool {
    '0' <= c <= '9'
}

/// The number that a run of decimal digits writes.
pub open spec fn decimal(s: Seq<char>) -> nat
    decreases s.len(),
{
    if s.len() == 0 {
        0
    } else {
        decimal(s.drop_last()) * 10 + (s.last() as nat - '0' as nat) as nat
    }
}

/// What one dotted segment counts for: the number it writes, and zero where it
/// writes none or one past 64 bits.
pub open spec fn segment(s: Seq<char>) -> u64 {
    if s.len() > 0 && (forall|i: int| 0 <= i < s.len() ==> is_digit(#[trigger] s[i])) && decimal(s)
        <= u64::MAX {
        decimal(s) as u64
    } else {
        0
    }
}

/// The part of a version that is compared: no white space around it, no leading
/// `v`, and nothing from the first `-` or `+` on.
pub open spec fn compared(v: Seq<char>) -> Seq<char> {
    let bare = text::strip_start(text::trim(v), Class::AnyV);
    bare.take(text::until(bare, Class::Suffix) as int)
}

/// The number at place `i` of a version, and zero where it has no such place.
pub open spec fn place(v: Seq<char>, i: int) -> u64 {
    let segments = text::split(compared(v), Class::Dot);
    if 0 <= i < segments.len() {
        segment(segments[i])
    } else {
        0
    }
}

/// The three numbers that a version is compared by.
pub open spec fn places(v: Seq<char>) -> (u64, u64, u64) {
    (place(v, 0), place(v, 1), place(v, 2))
}

/// Whether the numbers `a` come after the numbers `b`, the first place that
/// differs deciding.
pub open spec fn after(a: (u64, u64, u64), b: (u64, u64, u64)) -> bool {
    ||| a.0 > b.0
    ||| a.0 == b.0 && a.1 > b.1
    ||| a.0 == b.0 && a.1 == b.1 && a.2 > b.2
}

/// Whether version `a` is newer than version `b`.
pub open spec fn newer(a: Seq<char>, b: Seq<char>) -> bool {
    after(places(a), places(b))
}

proof fn lemma_decimal_grows(s: Seq<char>, n: int)
    requires
        0 <= n <= s.len(),
    ensures
        decimal(s.take(n)) <= decimal(s),
    decreases s.len(),
{
    if n == s.len() {
        assert(s.take(n) =~= s);
    } else {
        lemma_decimal_grows(s.drop_last(), n);
        assert(s.drop_last().take(n) =~= s.take(n));
    }
}

/// The number that one dotted segment counts for.
fn segment_number(s: &str) -> (r: u64)
    ensures
        r == segment(s@),
{
    let v = text::chars(s);
    let mut n: u64 = 0;
    let mut i: usize = 0;
    while i < v.len()
        invariant
            v@ == s@,
            i <= v.len(),
            forall|j: int| 0 <= j < i ==> is_digit(#[trigger] s@[j]),
            n == decimal(s@.take(i as int)),
        decreases v.len() - i,
    {
        let c = v[i];
        if !('0' <= c && c <= '9') {
            assert(!is_digit(s@[i as int]));
            return 0;
        }
        let d: u64 = c as u64 - '0' as u64;
        proof {
            assert(s@.take(i + 1).drop_last() =~= s@.take(i as int));
            assert(s@.take(i + 1).last() == c);
            lemma_decimal_grows(s@, i + 1);
        }
        if n > (u64::MAX - d) / 10 {
            return 0;
        }
        n = n * 10 + d;
        i = i + 1;
    }
    assert(s@.take(v.len() as int) =~= s@);
    n
}

/// The three numbers that a version is compared by.
fn numbers(v: &str) -> (r: (u64, u64, u64))
    ensures
        r == places(v@),
{
    let bare = text::stripped_start(text::trimmed(v), Class::AnyV);
    let core = match text::split_first(bare, Class::Suffix) {
        Some((before, _)) => before,
        None => bare,
    };
    proof {
        assert(bare@.take(bare@.len() as int) =~= bare@);
        assert(core@ == compared(v@));
        reveal_with_fuel(text::split, 4);
    }
    match text::split_first(core, Class::Dot) {
        None => (segment_number(core), 0, 0),
        Some((first, rest)) => match text::split_first(rest, Class::Dot) {
            None => (segment_number(first), segment_number(rest), 0),
            Some((second, tail)) => {
                let third = match text::split_first(tail, Class::Dot) {
                    None => tail,
                    Some((before, _)) => before,
                };
                (segment_number(first), segment_number(second), segment_number(third))
            },
        },
    }
}

/// True if dotted version `a` is greater than `b`. A leading `v` and any
/// pre-release suffix are ignored.
pub fn version_gt(a: &str, b: &str) -> (r: bool)
    ensures
        r == newer(a@, b@),
{
    let x = numbers(a);
    let y = numbers(b);
    x.0 > y.0 || (x.0 == y.0 && (x.1 > y.1 || (x.1 == y.1 && x.2 > y.2)))
}

/// A tail whose last character behind `head` is kept is trimmed on its own.
pub(crate) proof fn lemma_strip_end_behind(head: Seq<char>, tail: Seq<char>, class: Class)
    requires
        head.len() > 0,
        !class.holds(head.last()),
    ensures
        text::strip_end(head + tail, class) == head + text::strip_end(tail, class),
    decreases tail.len(),
{
    let whole = head + tail;
    if tail.len() == 0 {
        assert(whole =~= head);
        assert(head + text::strip_end(tail, class) =~= head);
    } else if class.holds(tail.last()) {
        assert(whole.drop_last() =~= head + tail.drop_last());
        lemma_strip_end_behind(head, tail.drop_last(), class);
    }
}

/// What starts a text decides how it is stripped, up to a character that stops
/// the stripping.
proof fn lemma_strip_start_before(head: Seq<char>, tail: Seq<char>, class: Class)
    requires
        tail.len() > 0,
        !class.holds(tail[0]),
    ensures
        text::strip_start(head + tail, class) == text::strip_start(head, class) + tail,
{
    let whole = head + tail;
    let n = text::span(head, class) as int;
    text::lemma_span_is(head, class);
    assert forall|j: int| 0 <= j < n implies class.holds(#[trigger] whole[j]) by {
        assert(whole[j] == head[j]);
    }
    text::lemma_span(whole, class, n);
    assert(whole.skip(n) =~= head.skip(n) + tail);
}

/// Being newer is a strict order: no version is newer than itself, no two are
/// newer than each other, and what is newer than a newer one is newer.
pub proof fn newer_is_a_strict_order(a: Seq<char>, b: Seq<char>, c: Seq<char>)
    ensures
        !newer(a, a),
        newer(a, b) ==> !newer(b, a),
        newer(a, b) && newer(b, c) ==> newer(a, c),
        !newer(a, b) && !newer(b, a) ==> places(a) == places(b),
{
}

/// A leading `v`, small or capital, is ignored: the version behind it is
/// compared as it stands alone. White space between the two is no part of this,
/// since only the white space around a whole version is ignored.
pub proof fn leading_v_is_ignored(v: Seq<char>, mark: char)
    requires
        Class::AnyV.holds(mark),
        v.len() > 0 ==> !text::is_space(v[0]),
    ensures
        places(seq![mark] + v) == places(v),
{
    let head = seq![mark];
    let tail = text::strip_end(v, Class::Space);
    text::lemma_span(head + v, Class::Space, 0);
    assert((head + v).skip(0) =~= head + v);
    text::lemma_span(v, Class::Space, 0);
    assert(v.skip(0) =~= v);
    lemma_strip_end_behind(head, v, Class::Space);
    assert(text::trim(head + v) == head + tail);
    assert(text::trim(v) == tail);
    let n = text::span(tail, Class::AnyV) as int;
    text::lemma_span_is(tail, Class::AnyV);
    assert forall|j: int| 0 <= j < n + 1 implies Class::AnyV.holds(
        #[trigger] (head + tail)[j],
    ) by {
        if j > 0 {
            assert((head + tail)[j] == tail[j - 1]);
        }
    }
    text::lemma_span(head + tail, Class::AnyV, n + 1);
    assert((head + tail).skip(n + 1) =~= tail.skip(n));
}

/// Whatever a `-` or a `+` introduces is ignored: a pre-release counts as the
/// release it precedes. The version in front has no white space at its end,
/// which would count as part of a segment here and be trimmed when it stands
/// alone.
pub proof fn suffix_is_ignored(v: Seq<char>, mark: char, suffix: Seq<char>)
    requires
        Class::Suffix.holds(mark),
        v.len() > 0 ==> !text::is_space(v.last()),
    ensures
        places(v + (seq![mark] + suffix)) == places(v),
{
    let head = seq![mark];
    let tail = head + text::strip_end(suffix, Class::Space);
    let front = text::strip_start(v, Class::Space);
    text::lemma_span_is(v, Class::Space);
    lemma_strip_start_before(v, head + suffix, Class::Space);
    assert(front.len() > 0 ==> front.last() == v.last());
    text::lemma_strip_end(front, Class::Space, front.len() as int);
    assert(front.take(front.len() as int) =~= front);
    lemma_strip_end_behind(front + head, suffix, Class::Space);
    assert(front + (head + suffix) =~= front + head + suffix);
    assert(front + head + text::strip_end(suffix, Class::Space) =~= front + tail);
    assert(text::trim(v + (head + suffix)) == front + tail);
    assert(text::trim(v) == front);
    lemma_strip_start_before(front, tail, Class::AnyV);
    let bare = text::strip_start(front, Class::AnyV);
    let n = text::until(bare, Class::Suffix) as int;
    text::lemma_until_is(bare, Class::Suffix);
    assert forall|j: int| 0 <= j < n implies !Class::Suffix.holds(
        #[trigger] (bare + tail)[j],
    ) by {
        assert((bare + tail)[j] == bare[j]);
    }
    text::lemma_until(bare + tail, Class::Suffix, n);
    assert((bare + tail).take(n) =~= bare.take(n));
}

} // verus!
