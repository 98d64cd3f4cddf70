//! Text as the rest of the crate reads it: trimming, splitting and searching,
//! stated over sequences of characters.

use vstd::prelude::*;

verus! {

/// The Unicode `White_Space` property, which is what trimming goes by.
pub open spec fn is_space(c: char) -> bool {
    ||| '\u{9}' <= c <= '\u{d}'
    ||| c == ' '
    ||| c == '\u{85}'
    ||| c == '\u{a0}'
    ||| c == '\u{1680}'
    ||| '\u{2000}' <= c <= '\u{200a}'
    ||| c == '\u{2028}'
    ||| c == '\u{2029}'
    ||| c == '\u{202f}'
    ||| c == '\u{205f}'
    ||| c == '\u{3000}'
}

/// A set of characters that a text is trimmed of or split at.
#[derive(Debug, Clone, Copy, PartialEq, Eq, Structural)]
pub enum Class {
    /// White space.
    Space,
    /// `v`, as a tag writes it.
    SmallV,
    /// `v` or `V`.
    AnyV,
    /// `-` or `+`, where a pre-release or build suffix starts.
    Suffix,
    Dot,
    Slash,
    LineFeed,
}

impl Class {
    /// Whether `c` belongs to the set.
    pub open spec fn holds(self, c: char) -> bool {
        match self {
            Class::Space => is_space(c),
            Class::SmallV => c == 'v',
            Class::AnyV => c == 'v' || c == 'V',
            Class::Suffix => c == '-' || c == '+',
            Class::Dot => c == '.',
            Class::Slash => c == '/',
            Class::LineFeed => c == '\n',
        }
    }

    /// Whether `c` belongs to the set.
    pub fn has(self, c: char) -> (r: bool)
        ensures
            r == self.holds(c),
    {
        match self {
            Class::Space => ('\u{9}' <= c && c <= '\u{d}') || c == ' ' || c == '\u{85}' || c
                == '\u{a0}' || c == '\u{1680}' || ('\u{2000}' <= c && c <= '\u{200a}') || c
                == '\u{2028}' || c == '\u{2029}' || c == '\u{202f}' || c == '\u{205f}' || c
                == '\u{3000}',
            Class::SmallV => c == 'v',
            Class::AnyV => c == 'v' || c == 'V',
            Class::Suffix => c == '-' || c == '+',
            Class::Dot => c == '.',
            Class::Slash => c == '/',
            Class::LineFeed => c == '\n',
        }
    }
}

/// How many characters at the start of `s` belong to `class`.
pub open spec fn span(s: Seq<char>, class: Class) -> nat
    decreases s.len(),
{
    if s.len() > 0 && class.holds(s[0]) {
        1 + span(s.drop_first(), class)
    } else {
        0
    }
}

/// How many characters of `s` come before the first that belongs to `class`.
pub open spec fn until(s: Seq<char>, class: Class) -> nat
    decreases s.len(),
{
    if s.len() > 0 && !class.holds(s[0]) {
        1 + until(s.drop_first(), class)
    } else {
        0
    }
}

/// `s` without the characters of `class` it starts with.
pub open spec fn strip_start(s: Seq<char>, class: Class) -> Seq<char> {
    s.skip(span(s, class) as int)
}

/// `s` without the characters of `class` it ends with.
pub open spec fn strip_end(s: Seq<char>, class: Class) -> Seq<char>
    decreases s.len(),
{
    if s.len() > 0 && class.holds(s.last()) {
        strip_end(s.drop_last(), class)
    } else {
        s
    }
}

/// `s` without the white space around it.
pub open spec fn trim(s: Seq<char>) -> Seq<char> {
    strip_end(strip_start(s, Class::Space), Class::Space)
}

/// The pieces of `s` between the characters of `class`: one more than there are
/// such characters.
pub open spec fn split(s: Seq<char>, class: Class) -> Seq<Seq<char>>
    decreases s.len(),
{
    let i = until(s, class) as int;
    if 0 <= i < s.len() {
        seq![s.take(i)] + split(s.skip(i + 1), class)
    } else {
        seq![s]
    }
}

/// Whether `t` occurs somewhere in `s`.
pub open spec fn contains(s: Seq<char>, t: Seq<char>) -> bool {
    exists|i: int|
        0 <= i <= s.len() - t.len() && #[trigger] s.subrange(i, i + t.len()) == t
}

/// Whether `s` ends with `t`.
pub open spec fn ends_with(s: Seq<char>, t: Seq<char>) -> bool {
    t.len() <= s.len() && s.skip(s.len() - t.len()) == t
}

/// Whether `s` starts with `t`.
pub open spec fn starts_with(s: Seq<char>, t: Seq<char>) -> bool {
    t.len() <= s.len() && s.take(t.len() as int) == t
}

pub(crate) proof fn lemma_span(s: Seq<char>, class: Class, n: int)
    requires
        0 <= n <= s.len(),
        forall|j: int| 0 <= j < n ==> class.holds(#[trigger] s[j]),
        n < s.len() ==> !class.holds(s[n]),
    ensures
        span(s, class) == n,
    decreases s.len(),
{
    if s.len() > 0 && n > 0 {
        assert(class.holds(s[0]));
        let t = s.drop_first();
        assert forall|j: int| 0 <= j < n - 1 implies class.holds(#[trigger] t[j]) by {
            assert(t[j] == s[j + 1]);
        }
        lemma_span(t, class, n - 1);
    }
}

pub(crate) proof fn lemma_until(s: Seq<char>, class: Class, n: int)
    requires
        0 <= n <= s.len(),
        forall|j: int| 0 <= j < n ==> !class.holds(#[trigger] s[j]),
        n < s.len() ==> class.holds(s[n]),
    ensures
        until(s, class) == n,
    decreases s.len(),
{
    if s.len() > 0 && n > 0 {
        assert(!class.holds(s[0]));
        let t = s.drop_first();
        assert forall|j: int| 0 <= j < n - 1 implies !class.holds(#[trigger] t[j]) by {
            assert(t[j] == s[j + 1]);
        }
        lemma_until(t, class, n - 1);
    }
}

/// The prefix that `span` counts holds only characters of the class, and the
/// character behind it is not one.
pub(crate) proof fn lemma_span_is(s: Seq<char>, class: Class)
    ensures
        span(s, class) <= s.len(),
        forall|j: int| 0 <= j < span(s, class) ==> class.holds(#[trigger] s[j]),
        span(s, class) < s.len() ==> !class.holds(s[span(s, class) as int]),
    decreases s.len(),
{
    if s.len() > 0 && class.holds(s[0]) {
        let t = s.drop_first();
        lemma_span_is(t, class);
        assert forall|j: int| 0 <= j < span(s, class) implies class.holds(#[trigger] s[j]) by {
            if j > 0 {
                assert(s[j] == t[j - 1]);
            }
        }
    }
}

/// The prefix that `until` counts holds no character of the class, and the
/// character behind it is one.
pub(crate) proof fn lemma_until_is(s: Seq<char>, class: Class)
    ensures
        until(s, class) <= s.len(),
        forall|j: int| 0 <= j < until(s, class) ==> !class.holds(#[trigger] s[j]),
        until(s, class) < s.len() ==> class.holds(s[until(s, class) as int]),
    decreases s.len(),
{
    if s.len() > 0 && !class.holds(s[0]) {
        let t = s.drop_first();
        lemma_until_is(t, class);
        assert forall|j: int| 0 <= j < until(s, class) implies !class.holds(#[trigger] s[j]) by {
            if j > 0 {
                assert(s[j] == t[j - 1]);
            }
        }
    }
}

pub(crate) proof fn lemma_strip_end(s: Seq<char>, class: Class, n: int)
    requires
        0 <= n <= s.len(),
        forall|j: int| n <= j < s.len() ==> class.holds(#[trigger] s[j]),
        n > 0 ==> !class.holds(s[n - 1]),
    ensures
        strip_end(s, class) == s.take(n),
    decreases s.len(),
{
    if n < s.len() {
        assert(class.holds(s[s.len() - 1]));
        let t = s.drop_last();
        assert forall|j: int| n <= j < t.len() implies class.holds(#[trigger] t[j]) by {
            assert(t[j] == s[j]);
        }
        lemma_strip_end(t, class, n);
        assert(t.take(n) =~= s.take(n));
    } else {
        assert(s.take(n) =~= s);
    }
}

/// The characters of `s`, for reading by position.
pub(crate) fn chars(s: &str) -> (v: Vec<char>)
    ensures
        v@ == s@,
{
    let mut v: Vec<char> = Vec::new();
    for c in it: s.chars()
        invariant
            v@ == it.seq().take(it.index() as int),
            it.seq() == s@,
    {
        v.push(c);
    }
    assert(s@.take(s@.len() as int) =~= s@);
    v
}

/// The text that an optional string holds.
pub open spec fn text_of(s: Option<String>) -> Option<Seq<char>> {
    match s {
        Some(s) => Some(s@),
        None => None,
    }
}

/// The text that an optional borrowed string holds.
pub open spec fn str_of(s: Option<&str>) -> Option<Seq<char>> {
    match s {
        Some(s) => Some(s@),
        None => None,
    }
}

/// Whether two texts are equal.
pub(crate) fn same(a: &str, b: &str) -> (r: bool)
    ensures
        r == (a@ == b@),
{
    a.to_owned() == b.to_owned()
}

/// `s` without the characters of `class` it starts with.
pub(crate) fn stripped_start<'a>(s: &'a str, class: Class) -> (r: &'a str)
    ensures
        r@ == strip_start(s@, class),
{
    let v = chars(s);
    let mut n: usize = 0;
    while n < v.len() && class.has(v[n])
        invariant
            v@ == s@,
            n <= v.len(),
            forall|j: int| 0 <= j < n ==> class.holds(#[trigger] s@[j]),
        decreases v.len() - n,
    {
        n = n + 1;
    }
    proof {
        lemma_span(s@, class, n as int);
        assert(s@.subrange(n as int, s@.len() as int) =~= s@.skip(n as int));
    }
    s.substring_char(n, v.len())
}

/// `s` without the characters of `class` it ends with.
pub(crate) fn stripped_end<'a>(s: &'a str, class: Class) -> (r: &'a str)
    ensures
        r@ == strip_end(s@, class),
{
    let v = chars(s);
    let mut n: usize = v.len();
    while n > 0 && class.has(v[n - 1])
        invariant
            v@ == s@,
            n <= v.len(),
            forall|j: int| n <= j < s@.len() ==> class.holds(#[trigger] s@[j]),
        decreases n,
    {
        n = n - 1;
    }
    proof {
        lemma_strip_end(s@, class, n as int);
        assert(s@.subrange(0, n as int) =~= s@.take(n as int));
    }
    s.substring_char(0, n)
}

/// `s` without the white space around it.
pub(crate) fn trimmed<'a>(s: &'a str) -> (r: &'a str)
    ensures
        r@ == trim(s@),
{
    stripped_end(stripped_start(s, Class::Space), Class::Space)
}

/// The text before the first character of `class` and the text behind that
/// character, or nothing where `s` holds no such character.
pub(crate) fn split_first<'a>(s: &'a str, class: Class) -> (r: Option<(&'a str, &'a str)>)
    ensures
        match r {
            Some((before, behind)) => {
                let i = until(s@, class) as int;
                i < s@.len() && before@ == s@.take(i) && behind@ == s@.skip(i + 1)
            },
            None => until(s@, class) == s@.len(),
        },
{
    let v = chars(s);
    let mut n: usize = 0;
    while n < v.len() && !class.has(v[n])
        invariant
            v@ == s@,
            n <= v.len(),
            forall|j: int| 0 <= j < n ==> !class.holds(#[trigger] s@[j]),
        decreases v.len() - n,
    {
        n = n + 1;
    }
    proof {
        lemma_until(s@, class, n as int);
    }
    if n < v.len() {
        proof {
            assert(s@.subrange(0, n as int) =~= s@.take(n as int));
            assert(s@.subrange(n + 1, s@.len() as int) =~= s@.skip(n + 1));
        }
        Some((s.substring_char(0, n), s.substring_char(n + 1, v.len())))
    } else {
        None
    }
}

/// Whether the characters of `t` stand in `s` from position `at` on.
fn stands_at(s: &Vec<char>, t: &Vec<char>, at: usize) -> (r: bool)
    requires
        at + t.len() <= s.len(),
    ensures
        r == (s@.subrange(at as int, at + t@.len()) == t@),
{
    let mut k: usize = 0;
    while k < t.len()
        invariant
            at + t.len() <= s.len(),
            k <= t.len(),
            forall|j: int| 0 <= j < k ==> s@[at + j] == #[trigger] t@[j],
        decreases t.len() - k,
    {
        if s[at + k] != t[k] {
            assert(s@.subrange(at as int, at + t@.len())[k as int] != t@[k as int]);
            return false;
        }
        k = k + 1;
    }
    assert(s@.subrange(at as int, at + t@.len()) =~= t@);
    true
}

/// Whether `t` occurs somewhere in `s`.
pub(crate) fn occurs(s: &str, t: &str) -> (r: bool)
    ensures
        r == contains(s@, t@),
{
    let a = chars(s);
    let b = chars(t);
    if b.len() > a.len() {
        return false;
    }
    if b.len() == 0 {
        assert(s@.subrange(0, 0int + t@.len()) =~= t@);
        return true;
    }
    let mut i: usize = 0;
    while i <= a.len() - b.len()
        invariant
            a@ == s@,
            b@ == t@,
            1 <= b.len() <= a.len(),
            i <= a.len() - b.len() + 1,
            forall|j: int| 0 <= j < i ==> #[trigger] s@.subrange(j, j + t@.len()) != t@,
        decreases a.len() - b.len() + 1 - i,
    {
        if stands_at(&a, &b, i) {
            return true;
        }
        i = i + 1;
    }
    false
}

/// Whether `s` starts with `t`.
pub(crate) fn begins(s: &str, t: &str) -> (r: bool)
    ensures
        r == starts_with(s@, t@),
{
    let a = chars(s);
    let b = chars(t);
    assert(b.len() <= a.len() ==> s@.subrange(0, t@.len() as int) =~= s@.take(t@.len() as int));
    b.len() <= a.len() && stands_at(&a, &b, 0)
}

/// Whether `s` ends with `t`.
pub(crate) fn ends(s: &str, t: &str) -> (r: bool)
    ensures
        r == ends_with(s@, t@),
{
    let a = chars(s);
    let b = chars(t);
    if b.len() > a.len() {
        return false;
    }
    let at: usize = a.len() - b.len();
    assert(s@.subrange(at as int, at + t@.len()) =~= s@.skip(s@.len() - t@.len()));
    stands_at(&a, &b, at)
}

/// `a` followed by `b`.
pub(crate) fn cat2(a: &str, b: &str) -> (r: String)
    ensures
        r@ == a@ + b@,
{
    a.to_owned().concat(b)
}

/// `a` followed by `b` and `c`.
pub(crate) fn cat3(a: &str, b: &str, c: &str) -> (r: String)
    ensures
        r@ == a@ + b@ + c@,
{
    a.to_owned().concat(b).concat(c)
}

} // verus!
