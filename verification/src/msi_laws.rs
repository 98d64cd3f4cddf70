//! What is read out of `reg query` output, said of how the output is put together,
//! and how an upgrade by the installer ends.

use vstd::prelude::*;

use crate::apply::Applied;
use crate::msi::{self, Action, History, Step, Upgrade};
use crate::text::{self, Class};
use crate::text_laws;

verus! {

/// A line that names the value, whatever the white space in it, answers with the
/// value: the whole of it, without the white space around it.
pub proof fn a_line_that_names_a_value_answers_with_it(
    before: Seq<char>,
    name: Seq<char>,
    between: Seq<char>,
    kind: Seq<char>,
    space: char,
    gap: Seq<char>,
    value: Seq<char>,
    behind: Seq<char>,
)
    requires
        text_laws::is_all(before, Class::Space),
        name.len() > 0,
        !text::is_space(name[0]),
        between.len() > 0,
        text_laws::is_all(between, Class::Space),
        text_laws::has_none(kind, Class::Space),
        text::is_space(space),
        text_laws::is_all(gap, Class::Space),
        value.len() > 0 ==> !text::is_space(value[0]) && !text::is_space(value.last()),
        text_laws::is_all(behind, Class::Space),
    ensures
        msi::line_value(
            before + (name + (between + (("REG_"@ + kind) + seq![space] + (gap + value + behind)))),
            name,
        ) == Some(value),
{
    reveal_strlit("REG_");
    let reg = "REG_"@ + kind;
    let last = gap + value + behind;
    let typed = reg + seq![space] + last;
    let rest = between + typed;
    let named = name + rest;
    let line = before + named;
    assert(named[0] == name[0]);
    text_laws::the_start_is_stripped(before, named, Class::Space);
    assert(named.skip(name.len() as int) =~= rest);
    assert(named.take(name.len() as int) =~= name);
    assert(rest[0] == between[0]);
    assert(typed[0] == 'R');
    text_laws::the_start_is_stripped(between, typed, Class::Space);
    assert forall|j: int| 0 <= j < reg.len() implies !Class::Space.holds(#[trigger] reg[j]) by {
        if j < 4 {
            assert(reg[j] == "REG_"@[j]);
        } else {
            assert(reg[j] == kind[j - 4]);
        }
    }
    text_laws::a_text_is_split_at_the_first(reg, space, last, Class::Space);
    let i = reg.len() as int;
    assert(typed.take(i) =~= reg);
    assert(reg.take(4) =~= "REG_"@);
    assert(typed.skip(i + 1) =~= last);
    text_laws::the_space_around_is_trimmed(gap, value, behind);
}

/// A line answers only for the name it starts with, and only where the name ends
/// at white space: neither a longer name nor the start of one answers.
pub proof fn a_line_answers_for_its_own_name(
    before: Seq<char>,
    other: Seq<char>,
    space: char,
    rest: Seq<char>,
    name: Seq<char>,
)
    requires
        text_laws::is_all(before, Class::Space),
        other.len() > 0,
        text_laws::has_none(other, Class::Space),
        text::is_space(space),
        text_laws::has_none(name, Class::Space),
        other != name,
    ensures
        msi::line_value(before + (other + seq![space] + rest), name) is None,
{
    let named = other + seq![space] + rest;
    assert(named[0] == other[0]);
    text_laws::the_start_is_stripped(before, named, Class::Space);
    let n = name.len() as int;
    if text::starts_with(named, name) && n < named.len() && text::is_space(named[n]) {
        if n < other.len() {
            assert(named[n] == other[n]);
            assert(Class::Space.holds(other[n]));
        } else {
            let m = other.len() as int;
            if n > m {
                assert(named[m] == space);
                assert(named.take(n)[m] == name[m]);
                assert(Class::Space.holds(name[m]));
            } else {
                assert(named.take(n) =~= other);
            }
        }
    } else if text::starts_with(named, name) {
        let skipped = named.skip(n);
        if skipped.len() > 0 {
            assert(skipped[0] == named[n]);
        }
    }
}

/// Lines end at a line feed, with or without a carriage return before it, and the
/// last needs none.
pub proof fn lines_end_at_line_feeds(line: Seq<char>, rest: Seq<char>)
    requires
        text_laws::has_none(line, Class::LineFeed),
    ensures
        msi::lines(line + seq!['\r'] + seq!['\n'] + rest) == seq![line] + msi::lines(rest),
        line.len() == 0 || line.last() != '\r' ==> msi::lines(line + seq!['\n'] + rest) == seq![
            line,
        ] + msi::lines(rest),
        line.len() > 0 ==> msi::lines(line) == seq![line],
{
    let long = line + seq!['\r'];
    assert forall|j: int| 0 <= j < long.len() implies !Class::LineFeed.holds(
        #[trigger] long[j],
    ) by {
        if j < line.len() {
            assert(long[j] == line[j]);
        }
    }
    text_laws::a_text_is_split_at_the_first(long, '\n', rest, Class::LineFeed);
    let s = long + seq!['\n'] + rest;
    assert(s.take(long.len() as int) =~= long);
    assert(s.skip(long.len() as int + 1) =~= rest);
    assert(long.drop_last() =~= line);
    text_laws::a_text_is_split_at_the_first(line, '\n', rest, Class::LineFeed);
    let t = line + seq!['\n'] + rest;
    assert(t.take(line.len() as int) =~= line);
    assert(t.skip(line.len() as int + 1) =~= rest);
    text_laws::a_text_without_a_mark_is_whole(line, Class::LineFeed);
}

/// Lines in front that do not answer, such as the heading of the key, do not
/// matter: the first that answers does, and what stands behind it does not matter
/// either.
pub proof fn the_first_line_that_answers_counts(
    front: Seq<Seq<char>>,
    line: Seq<char>,
    behind: Seq<Seq<char>>,
    name: Seq<char>,
)
    requires
        forall|i: int| 0 <= i < front.len() ==> msi::line_value(#[trigger] front[i], name) is None,
        msi::line_value(line, name) is Some,
    ensures
        msi::first_value(front + (seq![line] + behind), name) == msi::line_value(line, name),
        msi::first_value(front, name) is None,
    decreases front.len(),
{
    let all = front + (seq![line] + behind);
    if front.len() == 0 {
        assert(all[0] == line);
    } else {
        assert(all[0] == front[0]);
        let less = front.drop_first();
        assert(all.drop_first() =~= less + (seq![line] + behind));
        assert forall|i: int| 0 <= i < less.len() implies msi::line_value(
            #[trigger] less[i],
            name,
        ) is None by {
            assert(less[i] == front[i + 1]);
        }
        the_first_line_that_answers_counts(less, line, behind, name);
    }
}

/// What `reg query` prints for a value is read back: a heading of any lines that
/// do not answer, then the line, ended as Windows ends lines, then anything.
pub proof fn the_value_is_read_back(
    heading: Seq<char>,
    line: Seq<char>,
    rest: Seq<char>,
    name: Seq<char>,
    value: Seq<char>,
)
    requires
        text_laws::has_none(heading, Class::LineFeed),
        msi::line_value(heading, name) is None,
        text_laws::has_none(line, Class::LineFeed),
        msi::line_value(line, name) == Some(value),
    ensures
        msi::reg_value(
            heading + seq!['\r'] + seq!['\n'] + (line + seq!['\r'] + seq!['\n'] + rest),
            name,
        ) == if value.len() > 0 {
            Some(value)
        } else {
            None
        },
{
    let tail = line + seq!['\r'] + seq!['\n'] + rest;
    lines_end_at_line_feeds(heading, tail);
    lines_end_at_line_feeds(line, rest);
    let behind = msi::lines(rest);
    the_first_line_that_answers_counts(seq![heading], line, behind, name);
}

/// Whether a text is that many hexadecimal digits.
pub open spec fn is_hex_run(s: Seq<char>, n: nat) -> bool {
    &&& s.len() == n
    &&& forall|i: int|
        0 <= i < s.len() ==> ('0' <= #[trigger] s[i] <= '9' || 'a' <= s[i] <= 'f' || 'A' <= s[i]
            <= 'F')
}

/// A GUID put together from its five runs of digits.
pub open spec fn braced(
    a: Seq<char>,
    b: Seq<char>,
    c: Seq<char>,
    d: Seq<char>,
    e: Seq<char>,
) -> Seq<char> {
    seq!['{'] + a + seq!['-'] + b + seq!['-'] + c + seq!['-'] + d + seq!['-'] + e + seq!['}']
}

/// Whether five runs of digits are as long as those of a GUID.
pub open spec fn are_runs(
    a: Seq<char>,
    b: Seq<char>,
    c: Seq<char>,
    d: Seq<char>,
    e: Seq<char>,
) -> bool {
    &&& is_hex_run(a, 8)
    &&& is_hex_run(b, 4)
    &&& is_hex_run(c, 4)
    &&& is_hex_run(d, 4)
    &&& is_hex_run(e, 12)
}

/// A product code is what five runs of hexadecimal digits, as long as those of a
/// GUID, make in braces with dashes between them, and nothing else is.
#[verifier::rlimit(60)]
pub proof fn a_product_code_is_a_braced_guid(s: Seq<char>)
    ensures
        msi::is_guid(s) <==> exists|
            a: Seq<char>,
            b: Seq<char>,
            c: Seq<char>,
            d: Seq<char>,
            e: Seq<char>,
        |
            are_runs(a, b, c, d, e) && s == #[trigger] braced(a, b, c, d, e),
{
    if msi::is_guid(s) {
        let a = s.subrange(1, 9);
        let b = s.subrange(10, 14);
        let c = s.subrange(15, 19);
        let d = s.subrange(20, 24);
        let e = s.subrange(25, 37);
        assert forall|i: int| 0 <= i < 8 implies msi::is_hex(#[trigger] a[i]) by {
            assert(a[i] == s[i + 1]);
        }
        assert forall|i: int| 0 <= i < 4 implies msi::is_hex(#[trigger] b[i]) by {
            assert(b[i] == s[i + 10]);
        }
        assert forall|i: int| 0 <= i < 4 implies msi::is_hex(#[trigger] c[i]) by {
            assert(c[i] == s[i + 15]);
        }
        assert forall|i: int| 0 <= i < 4 implies msi::is_hex(#[trigger] d[i]) by {
            assert(d[i] == s[i + 20]);
        }
        assert forall|i: int| 0 <= i < 12 implies msi::is_hex(#[trigger] e[i]) by {
            assert(e[i] == s[i + 25]);
        }
        assert(s[9] == '-' && s[14] == '-' && s[19] == '-' && s[24] == '-');
        assert(s =~= braced(a, b, c, d, e));
        assert(are_runs(a, b, c, d, e));
    }
    if exists|a: Seq<char>, b: Seq<char>, c: Seq<char>, d: Seq<char>, e: Seq<char>|
        are_runs(a, b, c, d, e) && s == #[trigger] braced(a, b, c, d, e) {
        let (a, b, c, d, e) = choose|
            a: Seq<char>,
            b: Seq<char>,
            c: Seq<char>,
            d: Seq<char>,
            e: Seq<char>,
        |
            are_runs(a, b, c, d, e) && s == #[trigger] braced(a, b, c, d, e);
        assert forall|i: int| 0 < i < 37 implies if msi::is_dash_place(i) {
            #[trigger] s[i] == '-'
        } else {
            msi::is_hex(s[i])
        } by {
            if 0 < i < 9 {
                assert(s[i] == a[i - 1]);
            } else if 9 < i < 14 {
                assert(s[i] == b[i - 10]);
            } else if 14 < i < 19 {
                assert(s[i] == c[i - 15]);
            } else if 19 < i < 24 {
                assert(s[i] == d[i - 20]);
            } else if 24 < i < 37 {
                assert(s[i] == e[i - 25]);
            }
        }
    }
}

/// Whether a step is one that an upgrade cannot do without.
pub open spec fn is_needed(step: Step) -> bool {
    step is MakeStaging || step is CreatePackage || step is Download || step is Launch
}

/// An upgrade is launched exactly where every step that it cannot do without
/// worked; a staging directory that could not be cleared, or was not there, is no
/// reason to fail.
pub proof fn an_upgrade_fails_only_for_a_cause(h: History)
    requires
        h.is_history(),
        h.upgrades.last().step is Finished,
    ensures
        h.upgrades.last().step == (Step::Finished { launched: true }) <==> forall|j: int|
            #![trigger h.replies[j]]
            0 <= j < h.replies.len() && is_needed(h.upgrades[j].step) ==> h.replies[j] is Ok,
{
    lemma_upgrade(h, h.upgrades.len() - 1);
}

proof fn lemma_upgrade(h: History, i: int)
    requires
        h.is_history(),
        0 <= i < h.upgrades.len(),
    ensures
        (forall|j: int|
            #![trigger h.replies[j]]
            0 <= j < i && is_needed(h.upgrades[j].step) ==> h.replies[j] is Ok) <==> h.upgrades[i].step
            != (Step::Finished { launched: false }),
    decreases i,
{
    if i > 0 {
        lemma_upgrade(h, i - 1);
        assert(msi::answered(h.upgrades[i - 1], h.replies[i - 1], h.upgrades[i]));
    }
}

/// How far a step is from the end.
pub open spec fn left(step: Step) -> int {
    match step {
        Step::Clear => 5,
        Step::MakeStaging => 4,
        Step::CreatePackage => 3,
        Step::Download => 2,
        Step::Launch => 1,
        Step::Finished { launched: _ } => 0,
    }
}

/// Every answer brings an upgrade nearer its end, and what ended stays as it is.
pub proof fn every_answer_brings_the_end_nearer(step: Step, done: bool)
    ensures
        !(step is Finished) ==> 0 <= left(msi::next_step(step, done)) < left(step),
        step is Finished ==> msi::next_step(step, done) == step,
{
}

/// Whatever makes an upgrade fail is named in its error, with where it was, and
/// what does not make it fail leaves no error.
pub proof fn an_upgrade_says_why_it_failed(step: Step, place: Seq<char>, cause: Seq<char>)
    ensures
        msi::failure(step, place, cause) is Some <==> is_needed(step),
        msi::failure(step, place, cause) matches Some(e) ==> text::ends_with(e, ": "@ + cause),
        step is MakeStaging || step is CreatePackage ==> text::contains(
            msi::failure(step, place, cause)->0,
            place,
        ),
{
    match msi::failure(step, place, cause) {
        Some(e) => {
            text_laws::starting_and_ending(e, ": "@ + cause);
            match step {
                Step::MakeStaging => {
                    let a = "cannot create staging dir "@;
                    assert(e =~= a + place + (": "@ + cause));
                    text_laws::what_is_put_in_is_contained(a, place, ": "@ + cause);
                },
                Step::CreatePackage => {
                    let a = "cannot create "@;
                    assert(e =~= a + place + (": "@ + cause));
                    text_laws::what_is_put_in_is_contained(a, place, ": "@ + cause);
                },
                Step::Download => {
                    reveal_strlit("download failed: ");
                    reveal_strlit("download failed");
                    reveal_strlit(": ");
                    assert(e =~= "download failed"@ + (": "@ + cause));
                },
                _ => {
                    reveal_strlit("failed to launch msiexec: ");
                    reveal_strlit("failed to launch msiexec");
                    reveal_strlit(": ");
                    assert(e =~= "failed to launch msiexec"@ + (": "@ + cause));
                },
            }
        },
        None => {},
    }
}

/// The package that is downloaded is the asset of the upgrade, into the file that
/// was created for it, which is the one that the installer is started on.
pub proof fn what_is_downloaded_is_launched(
    upgrade: Upgrade,
    create: Action,
    download: Action,
    launch: Action,
)
    requires
        msi::is_asked(Upgrade { step: Step::CreatePackage, ..upgrade }, create),
        msi::is_asked(Upgrade { step: Step::Download, ..upgrade }, download),
        msi::is_asked(Upgrade { step: Step::Launch, ..upgrade }, launch),
    ensures
        create matches Action::CreatePackage(name) && name@ == upgrade.asset.name@,
        download matches Action::Download(asset) && asset.name@ == upgrade.asset.name@
            && asset.download_url@ == upgrade.asset.download_url@,
        launch matches Action::Launch(name) && name@ == upgrade.asset.name@,
{
}

/// An upgrade has a result once it is over and not before: that the installer is
/// running for its version and nothing was replaced yet, or why it is not.
pub proof fn an_upgrade_ends_as_it_went(upgrade: Upgrade, r: Option<Result<Applied, String>>)
    requires
        msi::is_ended(upgrade, r),
    ensures
        r is Some <==> upgrade.step is Finished,
        upgrade.step == (Step::Finished { launched: true }) ==> (r matches Some(Ok(a)) && {
            &&& a.version@ == upgrade.version@
            &&& a.frontends@.len() == 0
            &&& a.installer_launched
        }),
        upgrade.step == (Step::Finished { launched: false }) ==> (r matches Some(Err(e)) && e@
            == upgrade.error@),
{
}

/// Whatever is taken for a product code is shaped as one, and what the installer
/// recorded is taken: the value of `ProductCode`, wherever it stands in the
/// output, where it is shaped as one.
pub proof fn a_product_code_is_the_value_recorded(output: Seq<char>)
    ensures
        msi::product_code(None) is None,
        msi::product_code(Some(output)) matches Some(code) ==> msi::is_guid(code) && msi::reg_value(
            output,
            "ProductCode"@,
        ) == Some(code),
        msi::reg_value(output, "ProductCode"@) matches Some(code) ==> msi::is_guid(code)
            ==> msi::product_code(Some(output)) == Some(code),
{
}

/// An answer leaves an upgrade about the same version and package. Where it makes
/// the upgrade fail, the error is the reason for that, and else it stays.
pub proof fn an_answer_keeps_what_the_upgrade_is_about(
    before: Upgrade,
    reply: Result<(), msi::Failed>,
    after: Upgrade,
)
    requires
        msi::answered(before, reply, after),
    ensures
        after.version == before.version,
        after.asset == before.asset,
        reply is Ok || !is_needed(before.step) ==> after.error@ == before.error@,
        is_needed(before.step) ==> (reply matches Err(f) ==> Some(after.error@) == msi::failure(
            before.step,
            f.place@,
            f.cause@,
        )),
{
}

} // verus!
