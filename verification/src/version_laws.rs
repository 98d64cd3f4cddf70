//! Versions compare as the numbers they are written with do.

use vstd::prelude::*;

use crate::text::{self, Class};
use crate::text_laws;
use crate::version;

verus! {

/// Whether a text can stand between two dots of a version as one segment: nothing
/// in it ends a segment or the version.
pub open spec fn is_part(s: Seq<char>) -> bool {
    forall|i: int|
        0 <= i < s.len() ==> {
            &&& !text::is_space(#[trigger] s[i])
            &&& s[i] != '.'
            &&& s[i] != '-'
            &&& s[i] != '+'
        }
}

/// Whether a text can stand at the start of a version as its first segment.
pub open spec fn is_first_part(s: Seq<char>) -> bool {
    &&& is_part(s)
    &&& s.len() > 0 ==> s[0] != 'v' && s[0] != 'V'
}

/// Three segments with a dot between each and the next.
pub open spec fn dotted(a: Seq<char>, b: Seq<char>, c: Seq<char>) -> Seq<char> {
    a + seq!['.'] + (b + seq!['.'] + c)
}

/// A version of three numbers, as it is written.
pub open spec fn written(a: u64, b: u64, c: u64) -> Seq<char> {
    dotted(crate::write::digits(a as nat), crate::write::digits(b as nat), crate::write::digits(c as nat))
}

proof fn lemma_compared(s: Seq<char>)
    requires
        s.len() > 0 ==> s[0] != 'v' && s[0] != 'V',
        forall|i: int|
            0 <= i < s.len() ==> {
                &&& !text::is_space(#[trigger] s[i])
                &&& s[i] != '-'
                &&& s[i] != '+'
            },
    ensures
        version::compared(s) == s,
{
    let none = Seq::<char>::empty();
    text_laws::the_space_around_is_trimmed(none, s, none);
    assert(none + s + none =~= s);
    text_laws::the_start_is_stripped(none, s, Class::AnyV);
    assert(none + s =~= s);
    text_laws::a_text_without_a_mark_is_whole(s, Class::Suffix);
    assert(s.take(s.len() as int) =~= s);
}

proof fn lemma_dotted_chars(a: Seq<char>, b: Seq<char>, c: Seq<char>)
    requires
        is_first_part(a),
        is_part(b),
        is_part(c),
    ensures
        dotted(a, b, c).len() > 0,
        dotted(a, b, c)[0] != 'v' && dotted(a, b, c)[0] != 'V',
        forall|i: int|
            0 <= i < dotted(a, b, c).len() ==> {
                &&& !text::is_space(#[trigger] dotted(a, b, c)[i])
                &&& dotted(a, b, c)[i] != '-'
                &&& dotted(a, b, c)[i] != '+'
            },
{
    let s = dotted(a, b, c);
    assert forall|i: int| 0 <= i < s.len() implies {
        &&& !text::is_space(#[trigger] s[i])
        &&& s[i] != '-'
        &&& s[i] != '+'
    } by {
        let m = a.len() + 1;
        let n = m + b.len() + 1;
        if i < a.len() {
            assert(s[i] == a[i]);
        } else if i < m {
            assert(s[i] == '.');
        } else if i < m + b.len() {
            assert(s[i] == b[i - m]);
        } else if i < n {
            assert(s[i] == '.');
        } else {
            assert(s[i] == c[i - n]);
        }
    }
    if a.len() > 0 {
        assert(s[0] == a[0]);
    } else {
        assert(s[0] == '.');
    }
}

proof fn lemma_split_three(a: Seq<char>, b: Seq<char>, c: Seq<char>)
    requires
        is_part(a),
        is_part(b),
    ensures
        text::split(dotted(a, b, c), Class::Dot) == seq![a, b] + text::split(c, Class::Dot),
{
    let rest = b + seq!['.'] + c;
    text_laws::a_text_is_split_at_the_first(a, '.', rest, Class::Dot);
    text_laws::a_text_is_split_at_the_first(b, '.', c, Class::Dot);
    assert(seq![a] + (seq![b] + text::split(c, Class::Dot)) =~= seq![a, b] + text::split(
        c,
        Class::Dot,
    ));
}

/// The three segments of a version are what it is compared by, the first first.
pub proof fn a_version_is_its_three_segments(a: Seq<char>, b: Seq<char>, c: Seq<char>)
    requires
        is_first_part(a),
        is_part(b),
        is_part(c),
    ensures
        version::places(dotted(a, b, c)) == (
            version::segment(a),
            version::segment(b),
            version::segment(c),
        ),
{
    lemma_dotted_chars(a, b, c);
    lemma_compared(dotted(a, b, c));
    lemma_split_three(a, b, c);
    text_laws::a_text_without_a_mark_is_whole(c, Class::Dot);
}

/// Segments that a version leaves out count as zero.
pub proof fn segments_left_out_are_zero(a: Seq<char>, b: Seq<char>)
    requires
        is_first_part(a),
        is_part(b),
    ensures
        version::places(a) == (version::segment(a), 0u64, 0u64),
        version::places(a + seq!['.'] + b) == (version::segment(a), version::segment(b), 0u64),
{
    lemma_compared(a);
    text_laws::a_text_without_a_mark_is_whole(a, Class::Dot);
    let s = a + seq!['.'] + b;
    assert forall|i: int| 0 <= i < s.len() implies {
        &&& !text::is_space(#[trigger] s[i])
        &&& s[i] != '-'
        &&& s[i] != '+'
    } by {
        let m = a.len() + 1;
        if i < a.len() {
            assert(s[i] == a[i]);
        } else if i < m {
            assert(s[i] == '.');
        } else {
            assert(s[i] == b[i - m]);
        }
    }
    if a.len() > 0 {
        assert(s[0] == a[0]);
    } else {
        assert(s[0] == '.');
    }
    lemma_compared(s);
    text_laws::a_text_is_split_at_the_first(a, '.', b, Class::Dot);
    text_laws::a_text_without_a_mark_is_whole(b, Class::Dot);
}

/// Whatever a third dot introduces is no part of the comparison.
pub proof fn further_segments_are_ignored(
    a: Seq<char>,
    b: Seq<char>,
    c: Seq<char>,
    more: Seq<char>,
)
    requires
        is_first_part(a),
        is_part(b),
        is_part(c),
    ensures
        version::places(dotted(a, b, c) + seq!['.'] + more) == version::places(dotted(a, b, c)),
{
    a_version_is_its_three_segments(a, b, c);
    lemma_dotted_chars(a, b, c);
    let head = dotted(a, b, c) + seq!['.'];
    let none = Seq::<char>::empty();
    let whole = head + more;
    let kept = text::strip_end(more, Class::Space);
    assert(head.last() == '.');
    assert(head[0] == dotted(a, b, c)[0]);
    assert(whole[0] == head[0]);
    assert(none + whole =~= whole);
    assert(!text::is_space(dotted(a, b, c)[0]));
    text_laws::the_start_is_stripped(none, whole, Class::Space);
    version::lemma_strip_end_behind(head, more, Class::Space);
    assert(text::trim(whole) == head + kept);
    assert(none + (head + kept) =~= head + kept);
    assert((head + kept)[0] == head[0]);
    text_laws::the_start_is_stripped(none, head + kept, Class::AnyV);
    let bare = head + kept;
    let n = text::until(bare, Class::Suffix) as int;
    text::lemma_until_is(bare, Class::Suffix);
    assert(n >= head.len()) by {
        if n < head.len() {
            if n < head.len() - 1 {
                assert(bare[n] == dotted(a, b, c)[n]);
            } else {
                assert(bare[n] == '.');
            }
        }
    }
    let tail = bare.take(n).skip(head.len() as int);
    let behind = c + seq!['.'] + tail;
    assert(bare.take(n) =~= dotted(a, b, behind));
    assert(version::compared(whole) == dotted(a, b, behind));
    lemma_split_three(a, b, behind);
    text_laws::a_text_is_split_at_the_first(c, '.', tail, Class::Dot);
}

proof fn lemma_digits_are_digits(n: nat)
    ensures
        crate::write::digits(n).len() > 0,
        forall|i: int|
            0 <= i < crate::write::digits(n).len() ==> '0' <= #[trigger] crate::write::digits(n)[i] <= '9',
    decreases n,
{
    if n >= 10 {
        lemma_digits_are_digits(n / 10);
        let d = crate::write::digits(n);
        assert forall|i: int| 0 <= i < d.len() implies '0' <= #[trigger] d[i] <= '9' by {
            if i < d.len() - 1 {
                assert(d[i] == crate::write::digits(n / 10)[i]);
            }
        }
    }
}

/// A segment counts for the number that it writes, with or without zeros in
/// front. One that writes none, or a number past 64 bits, counts for nothing.
pub proof fn a_segment_is_the_number_it_writes(n: nat, s: Seq<char>, i: int)
    ensures
        n <= u64::MAX ==> version::segment(crate::write::digits(n)) == n,
        n <= u64::MAX ==> version::segment(seq!['0'] + crate::write::digits(n)) == n,
        n > u64::MAX ==> version::segment(crate::write::digits(n)) == 0,
        version::segment(seq![]) == 0,
        0 <= i < s.len() && !('0' <= s[i] <= '9') ==> version::segment(s) == 0,
{
    lemma_digits_are_digits(n);
    crate::write::lemma_digits_read_back(n);
    let d = crate::write::digits(n);
    assert forall|j: int| 0 <= j < d.len() implies version::is_digit(#[trigger] d[j]) by {
        assert('0' <= d[j] <= '9');
    }
    let z = seq!['0'] + d;
    assert forall|j: int| 0 <= j < z.len() implies version::is_digit(#[trigger] z[j]) by {
        if j > 0 {
            assert(z[j] == d[j - 1]);
        }
    }
    lemma_zero_in_front(d);
    if 0 <= i < s.len() && !('0' <= s[i] <= '9') {
        assert(!version::is_digit(s[i]));
    }
}

proof fn lemma_zero_in_front(s: Seq<char>)
    ensures
        version::decimal(seq!['0'] + s) == version::decimal(s),
    decreases s.len(),
{
    let z = seq!['0'] + s;
    if s.len() == 0 {
        assert(z.drop_last() =~= s);
        reveal_with_fuel(version::decimal, 2);
    } else {
        assert(z.drop_last() =~= seq!['0'] + s.drop_last());
        assert(z.last() == s.last());
        lemma_zero_in_front(s.drop_last());
    }
}

/// Of two versions of three numbers the newer is the one whose first number that
/// differs is the larger, as numbers and not as text: 0.10.0 is newer than 0.9.0.
pub proof fn versions_compare_by_their_numbers(
    a: u64,
    b: u64,
    c: u64,
    x: u64,
    y: u64,
    z: u64,
)
    ensures
        version::newer(written(a, b, c), written(x, y, z)) <==> {
            if a != x {
                a > x
            } else if b != y {
                b > y
            } else {
                c > z
            }
        },
{
    lemma_written(a, b, c);
    lemma_written(x, y, z);
}

proof fn lemma_written(a: u64, b: u64, c: u64)
    ensures
        version::places(written(a, b, c)) == (a, b, c),
        is_first_part(crate::write::digits(a as nat)),
        is_part(crate::write::digits(b as nat)),
        is_part(crate::write::digits(c as nat)),
{
    lemma_digits_are_digits(a as nat);
    lemma_digits_are_digits(b as nat);
    lemma_digits_are_digits(c as nat);
    a_segment_is_the_number_it_writes(a as nat, seq![], 0);
    a_segment_is_the_number_it_writes(b as nat, seq![], 0);
    a_segment_is_the_number_it_writes(c as nat, seq![], 0);
    a_version_is_its_three_segments(
        crate::write::digits(a as nat),
        crate::write::digits(b as nat),
        crate::write::digits(c as nat),
    );
}

/// The spelling of a version decides nothing: with a tag's `v` in front, or with
/// a pre-release behind it, it is as new as it is without.
pub proof fn spelling_decides_nothing(
    a: u64,
    b: u64,
    c: u64,
    suffix: Seq<char>,
    other: Seq<char>,
)
    ensures
        version::newer(seq!['v'] + written(a, b, c), other) <==> version::newer(
            written(a, b, c),
            other,
        ),
        version::newer(written(a, b, c) + (seq!['-'] + suffix), other) <==> version::newer(
            written(a, b, c),
            other,
        ),
        version::newer(other, seq!['v'] + written(a, b, c)) <==> version::newer(
            other,
            written(a, b, c),
        ),
        version::newer(other, written(a, b, c) + (seq!['-'] + suffix)) <==> version::newer(
            other,
            written(a, b, c),
        ),
{
    let w = written(a, b, c);
    lemma_written(a, b, c);
    lemma_dotted_chars(
        crate::write::digits(a as nat),
        crate::write::digits(b as nat),
        crate::write::digits(c as nat),
    );
    assert(!text::is_space(w[0]));
    assert(!text::is_space(w[w.len() - 1]));
    version::leading_v_is_ignored(w, 'v');
    version::suffix_is_ignored(w, '-', suffix);
}

/// White space around a version is ignored.
pub proof fn space_around_is_ignored(before: Seq<char>, v: Seq<char>, behind: Seq<char>)
    requires
        text_laws::is_all(before, Class::Space),
        text_laws::is_all(behind, Class::Space),
        v.len() > 0 ==> !text::is_space(v[0]) && !text::is_space(v.last()),
    ensures
        version::places(before + v + behind) == version::places(v),
{
    let none = Seq::<char>::empty();
    text_laws::the_space_around_is_trimmed(before, v, behind);
    text_laws::the_space_around_is_trimmed(none, v, none);
    assert(none + v + none =~= v);
}

} // verus!
