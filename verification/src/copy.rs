//! Copying a payload, directory by directory.
//!
//! The Omarchy plugin registry refuses a plugin folder containing a symlink, and
//! none of the payloads ship any; refusing beats copying something that resolves
//! differently on the target machine.

use vstd::prelude::*;

use crate::text;
use crate::text_laws;

verus! {

/// What an entry of a directory is, a symlink not being followed.
#[derive(Debug, Clone, Copy, PartialEq, Eq, Structural)]
pub enum Kind {
    Dir,
    File,
    Symlink,
    /// A socket, a device or the like, which is passed over.
    Other,
}

/// What a copy is waiting for, which is also what to do next.
#[derive(Debug, Clone, Copy, PartialEq, Eq, Structural)]
pub enum Step {
    /// Create the destination of the directory that was named last - of the
    /// whole payload at first - and open its source, inside those already open.
    Enter,
    /// Name the next entry of the innermost open directory, or close it where
    /// there is none left.
    Next,
    /// Copy the file that was named last.
    CopyFile,
    /// Nothing: the copy is over.
    Finished { ok: bool },
}

/// How a step went.
#[derive(Debug, Clone, PartialEq, Eq)]
pub enum Reply {
    Done,
    /// The next entry, and its path as it is shown to a user.
    Entry { kind: Kind, place: String },
    /// There is no entry left.
    End,
    Failed { cause: String },
}

/// How a step went, without what there is to say about it.
pub enum Answer {
    Done,
    Entry(Kind),
    End,
    Failed,
}

impl Reply {
    /// The answer that is replied.
    pub open spec fn answer(self) -> Answer {
        match self {
            Reply::Done => Answer::Done,
            Reply::Entry { kind, place: _ } => Answer::Entry(kind),
            Reply::End => Answer::End,
            Reply::Failed { cause: _ } => Answer::Failed,
        }
    }
}

/// How many directories are open after a step.
pub open spec fn next_depth(step: Step, depth: int, answer: Answer) -> int {
    match (step, answer) {
        (Step::Enter, Answer::Failed) => depth,
        (Step::Enter, _) => depth + 1,
        (Step::Next, Answer::End) => depth - 1,
        _ => depth,
    }
}

/// The step that follows.
pub open spec fn next_step(step: Step, depth: int, answer: Answer) -> Step {
    match (step, answer) {
        (Step::Finished { ok }, _) => Step::Finished { ok },
        (_, Answer::Failed) => Step::Finished { ok: false },
        (Step::Next, Answer::Entry(Kind::Dir)) => Step::Enter,
        (Step::Next, Answer::Entry(Kind::File)) => Step::CopyFile,
        (Step::Next, Answer::Entry(Kind::Symlink)) => Step::Finished { ok: false },
        (Step::Next, Answer::End) => if depth <= 1 {
            Step::Finished { ok: true }
        } else {
            Step::Next
        },
        _ => Step::Next,
    }
}

/// One payload being copied.
#[derive(Debug, Clone)]
pub struct Walk {
    pub step: Step,
    /// How many directories are open.
    pub depth: u64,
    /// Why it failed, once it has.
    pub error: String,
}

/// Start copying a payload.
pub fn copy_dir() -> (r: Walk)
    ensures
        r.step == Step::Enter,
        r.depth == 0,
        r.error@ == Seq::<char>::empty(),
        r.wf(),
{
    Walk { step: Step::Enter, depth: 0, error: String::new() }
}

/// What answering a copy's step with `reply` makes of it.
pub open spec fn answered(before: Walk, reply: Reply, after: Walk) -> bool {
    &&& after.step == next_step(before.step, before.depth as int, reply.answer())
    &&& after.depth == next_depth(before.step, before.depth as int, reply.answer())
    &&& after.error@ == match (before.step, reply) {
        (Step::Finished { ok: _ }, _) => before.error@,
        (_, Reply::Failed { cause }) => cause@,
        (Step::Next, Reply::Entry { kind: Kind::Symlink, place }) => {
            "refusing to copy symlink "@ + place@
        },
        _ => before.error@,
    }
}

impl Walk {
    /// Whether an entry is only ever asked for inside an open directory.
    pub open spec fn wf(self) -> bool {
        self.step is Next || self.step is CopyFile ==> self.depth >= 1
    }

    /// Take how the step went.
    pub fn answer(&mut self, reply: Reply)
        requires
            old(self).wf(),
            old(self).depth < u64::MAX,
        ensures
            final(self).wf(),
            answered(*old(self), reply, *final(self)),
    {
        match (self.step, reply) {
            (Step::Finished { ok: _ }, _) => {},
            (_, Reply::Failed { cause }) => {
                self.error = cause;
                self.step = Step::Finished { ok: false };
            },
            (Step::Enter, _) => {
                self.depth = self.depth + 1;
                self.step = Step::Next;
            },
            (Step::Next, Reply::Entry { kind, place }) => match kind {
                Kind::Dir => {
                    self.step = Step::Enter;
                },
                Kind::File => {
                    self.step = Step::CopyFile;
                },
                Kind::Symlink => {
                    self.error = text::cat2("refusing to copy symlink ", place.as_str());
                    self.step = Step::Finished { ok: false };
                },
                Kind::Other => {},
            },
            (Step::Next, Reply::End) => {
                if self.depth <= 1 {
                    self.step = Step::Finished { ok: true };
                }
                self.depth = self.depth - 1;
            },
            (Step::Next, Reply::Done) => {},
            (Step::CopyFile, _) => {
                self.step = Step::Next;
            },
        }
    }

    /// Once it is over, whether it succeeded, and if not why.
    pub fn result(&self) -> (r: Option<Result<(), String>>)
        ensures
            match self.step {
                Step::Finished { ok: true } => r == Some(Ok::<(), String>(())),
                Step::Finished { ok: false } => r matches Some(Err(e)) && e@ == self.error@,
                _ => r is None,
            },
    {
        match self.step {
            Step::Finished { ok } => if ok {
                Some(Ok(()))
            } else {
                Some(Err(self.error.clone()))
            },
            _ => None,
        }
    }
}

/// What stands in a directory under some name.
pub enum Tree<T> {
    Dir(Seq<(Seq<char>, Tree<T>)>),
    File(T),
    Symlink,
    Other,
}

/// What kind of entry a tree is.
pub open spec fn kind_of<T>(tree: Tree<T>) -> Kind {
    match tree {
        Tree::Dir(_) => Kind::Dir,
        Tree::File(_) => Kind::File,
        Tree::Symlink => Kind::Symlink,
        Tree::Other => Kind::Other,
    }
}

/// The entries of a directory that a copy of it has: its directories, copied the
/// same way, and its files.
pub open spec fn copied<T>(entries: Seq<(Seq<char>, Tree<T>)>) -> Seq<(Seq<char>, Tree<T>)>
    decreases entries,
{
    if entries.len() == 0 {
        seq![]
    } else {
        let (name, tree) = entries[0];
        let rest = copied(entries.drop_first());
        match tree {
            Tree::Dir(inner) => seq![(name, Tree::Dir(copied(inner)))] + rest,
            Tree::File(t) => seq![(name, Tree::File(t))] + rest,
            _ => rest,
        }
    }
}

/// Whether there is a symlink anywhere below a directory.
pub open spec fn has_symlink<T>(entries: Seq<(Seq<char>, Tree<T>)>) -> bool
    decreases entries,
{
    entries.len() > 0 && {
        ||| match entries[0].1 {
            Tree::Dir(inner) => has_symlink(inner),
            Tree::Symlink => true,
            _ => false,
        }
        ||| has_symlink(entries.drop_first())
    }
}

/// A directory that is open: its name, the entries that are still to be named,
/// and what its copy has so far.
pub struct Open<T> {
    pub name: Seq<char>,
    pub rest: Seq<(Seq<char>, Tree<T>)>,
    pub made: Seq<(Seq<char>, Tree<T>)>,
}

/// A copy and the disk it works on, while nothing goes wrong: the step, the open
/// directories from the outermost in, the entry that was named last, and what
/// was copied once all is.
pub struct Scene<T> {
    pub step: Step,
    pub open: Seq<Open<T>>,
    pub named: (Seq<char>, Tree<T>),
    pub whole: Seq<(Seq<char>, Tree<T>)>,
}

/// A copy that is about to start on a directory.
pub open spec fn opening<T>(name: Seq<char>, entries: Seq<(Seq<char>, Tree<T>)>) -> Scene<T> {
    Scene {
        step: Step::Enter,
        open: seq![],
        named: (name, Tree::Dir(entries)),
        whole: seq![],
    }
}

/// Open directories with `entry` added to what the innermost one's copy has.
pub open spec fn with_made<T>(
    open: Seq<Open<T>>,
    entry: (Seq<char>, Tree<T>),
) -> Seq<Open<T>> {
    open.drop_last().push(Open { made: open.last().made.push(entry), ..open.last() })
}

/// The scene that follows when the disk does what it is asked.
pub open spec fn next_scene<T>(c: Scene<T>) -> Scene<T> {
    let depth = c.open.len() as int;
    match c.step {
        Step::Enter => {
            let entries = match c.named.1 {
                Tree::Dir(entries) => entries,
                _ => seq![],
            };
            Scene {
                step: next_step(c.step, depth, Answer::Done),
                open: c.open.push(Open { name: c.named.0, rest: entries, made: seq![] }),
                ..c
            }
        },
        Step::CopyFile => Scene {
            step: next_step(c.step, depth, Answer::Done),
            open: with_made(c.open, c.named),
            ..c
        },
        Step::Next => {
            let top = c.open.last();
            if top.rest.len() > 0 {
                Scene {
                    step: next_step(c.step, depth, Answer::Entry(kind_of(top.rest[0].1))),
                    open: c.open.drop_last().push(Open { rest: top.rest.drop_first(), ..top }),
                    named: top.rest[0],
                    ..c
                }
            } else if c.open.len() > 1 {
                Scene {
                    step: next_step(c.step, depth, Answer::End),
                    open: with_made(c.open.drop_last(), (top.name, Tree::Dir(top.made))),
                    ..c
                }
            } else {
                Scene {
                    step: next_step(c.step, depth, Answer::End),
                    open: seq![],
                    whole: top.made,
                    ..c
                }
            }
        },
        Step::Finished { ok: _ } => c,
    }
}

/// The scene `n` steps on.
pub open spec fn scene_after<T>(c: Scene<T>, n: nat) -> Scene<T>
    decreases n,
{
    if n == 0 {
        c
    } else {
        scene_after(next_scene(c), (n - 1) as nat)
    }
}

proof fn lemma_after_after<T>(c: Scene<T>, m: nat, n: nat)
    ensures
        scene_after(scene_after(c, m), n) == scene_after(c, m + n),
    decreases m,
{
    if m > 0 {
        lemma_after_after(next_scene(c), (m - 1) as nat, n);
    }
}

/// Whether a scene is at the next entry of a directory inside those of `below`.
spec fn is_at<T>(
    c: Scene<T>,
    below: Seq<Open<T>>,
    top: Open<T>,
) -> bool {
    c.step == Step::Next && c.open == below.push(top)
}

/// From the next entry of a directory the copy gets through all that are left,
/// or fails at a symlink.
proof fn lemma_through<T>(c: Scene<T>, below: Seq<Open<T>>, top: Open<T>) -> (n: nat)
    requires
        is_at(c, below, top),
    ensures
        has_symlink(top.rest) ==> scene_after(c, n).step == (Step::Finished { ok: false }),
        !has_symlink(top.rest) ==> is_at(
            scene_after(c, n),
            below,
            Open { name: top.name, rest: seq![], made: top.made + copied(top.rest) },
        ),
    decreases top.rest,
{
    let rest = top.rest;
    if rest.len() == 0 {
        assert(rest =~= seq![]);
        assert(top.made + copied(rest) =~= top.made);
        return 0;
    }
    let first = rest[0];
    let tail = rest.drop_first();
    let c1 = next_scene(c);
    let moved = Open { rest: tail, ..top };
    assert(c.open.drop_last() =~= below);
    assert(c1.open =~= below.push(moved));
    assert(scene_after(c, 1) == c1) by {
        reveal_with_fuel(scene_after, 2);
    }
    match first.1 {
        Tree::Symlink => { 1 },
        Tree::Other => {
            let n = lemma_through(c1, below, moved);
            lemma_after_after(c, 1, n);
            1 + n
        },
        Tree::File(t) => {
            let c2 = next_scene(c1);
            let grown = Open { made: top.made.push(first), ..moved };
            assert(c1.open.drop_last() =~= below);
            assert(c2.open =~= below.push(grown));
            assert(scene_after(c, 2) == c2) by {
                reveal_with_fuel(scene_after, 3);
            }
            let n = lemma_through(c2, below, grown);
            lemma_after_after(c, 2, n);
            assert(grown.made + copied(tail) =~= top.made + copied(rest));
            2 + n
        },
        Tree::Dir(inner) => {
            let c2 = next_scene(c1);
            let outer = below.push(moved);
            let fresh = Open { name: first.0, rest: inner, made: seq![] };
            assert(c2.open =~= outer.push(fresh));
            assert(scene_after(c, 2) == c2) by {
                reveal_with_fuel(scene_after, 3);
            }
            assert(decreases_to!(rest => first));
            assert(decreases_to!(first => first.1));
            let m = lemma_through(c2, outer, fresh);
            lemma_after_after(c, 2, m);
            if has_symlink(inner) {
                return 2 + m;
            }
            let c3 = scene_after(c2, m);
            let c4 = next_scene(c3);
            assert(seq![] + copied(inner) =~= copied(inner));
            let entry = (first.0, Tree::Dir(copied(inner)));
            let grown = Open { made: top.made.push(entry), ..moved };
            assert(c3.open.drop_last() =~= outer);
            assert(outer.drop_last() =~= below);
            assert(c4.open =~= below.push(grown));
            assert(scene_after(c3, 1) == c4) by {
                reveal_with_fuel(scene_after, 2);
            }
            lemma_after_after(c, 2 + m, 1);
            let n = lemma_through(c4, below, grown);
            lemma_after_after(c, 3 + m, n);
            assert(grown.made + copied(tail) =~= top.made + copied(rest));
            3 + m + n
        },
    }
}

/// Where the disk does what it is asked, a payload without symlinks is copied
/// whole - every directory and every file of it, in order, and nothing else - and
/// one with a symlink anywhere in it is refused.
pub proof fn a_payload_is_copied_whole_or_refused<T>(
    name: Seq<char>,
    entries: Seq<(Seq<char>, Tree<T>)>,
)
    ensures
        has_symlink(entries) ==> exists|n: nat|
            (#[trigger] scene_after(opening(name, entries), n)).step == (Step::Finished {
                ok: false,
            }),
        !has_symlink(entries) ==> exists|n: nat|
            {
                let c = #[trigger] scene_after(opening(name, entries), n);
                c.step == (Step::Finished { ok: true }) && c.whole == copied(entries)
            },
{
    let c = opening(name, entries);
    let c1 = next_scene(c);
    let top = Open { name, rest: entries, made: seq![] };
    assert(c1.open =~= Seq::<Open<T>>::empty().push(top));
    assert(scene_after(c, 1) == c1) by {
        reveal_with_fuel(scene_after, 2);
    }
    let n = lemma_through(c1, seq![], top);
    lemma_after_after(c, 1, n);
    if !has_symlink(entries) {
        let c2 = scene_after(c1, n);
        assert(seq![] + copied(entries) =~= copied(entries));
        assert(scene_after(c2, 1) == next_scene(c2)) by {
            reveal_with_fuel(scene_after, 2);
        }
        lemma_after_after(c, 1 + n, 1);
        assert(scene_after(c, 2 + n).step == (Step::Finished { ok: true }));
    }
}

/// A copy has no symlink in it, and copying it again changes nothing.
pub proof fn a_copy_is_faithful<T>(entries: Seq<(Seq<char>, Tree<T>)>)
    ensures
        !has_symlink(copied(entries)),
        copied(copied(entries)) == copied(entries),
    decreases entries,
{
    if entries.len() > 0 {
        let first = entries[0];
        let rest = copied(entries.drop_first());
        a_copy_is_faithful(entries.drop_first());
        match first.1 {
            Tree::Dir(inner) => {
                assert(decreases_to!(entries => first));
                assert(decreases_to!(first => first.1));
                a_copy_is_faithful(inner);
                assert(copied(entries).drop_first() =~= rest);
            },
            Tree::File(_) => {
                assert(copied(entries).drop_first() =~= rest);
            },
            _ => {},
        }
    }
}

/// A copy from its start on: what it was at each step, and how each of them was
/// answered.
pub struct History {
    pub walks: Seq<Walk>,
    pub replies: Seq<Reply>,
}

impl History {
    /// Whether the copy starts as a new one does and each answer made of it what
    /// [`Walk::answer`] makes of it.
    pub open spec fn is_history(self) -> bool {
        &&& self.walks.len() == self.replies.len() + 1
        &&& self.walks[0].step == Step::Enter
        &&& self.walks[0].depth == 0
        &&& forall|i: int|
            #![trigger self.replies[i]]
            0 <= i < self.replies.len() ==> {
                &&& answered(self.walks[i], self.replies[i], self.walks[i + 1])
                &&& self.walks[i + 1].wf()
            }
    }
}

/// What the disk answers when it does what it is asked.
pub open spec fn answer_of<T>(c: Scene<T>) -> Answer {
    match c.step {
        Step::Next => if c.open.last().rest.len() > 0 {
            Answer::Entry(kind_of(c.open.last().rest[0].1))
        } else {
            Answer::End
        },
        _ => Answer::Done,
    }
}

/// Whether, at place `i`, a copy has failed or is where a disk that did all it was
/// asked has brought it.
spec fn is_on_course<T>(h: History, start: Scene<T>, i: int) -> bool {
    let c = scene_after(start, i as nat);
    ||| h.walks[i].step == (Step::Finished { ok: false })
    ||| {
        &&& h.walks[i].step == c.step
        &&& h.walks[i].depth == c.open.len()
    }
}

proof fn lemma_on_course<T>(
    h: History,
    name: Seq<char>,
    entries: Seq<(Seq<char>, Tree<T>)>,
    i: int,
)
    requires
        h.is_history(),
        is_answered_truly(h, opening(name, entries)),
        0 <= i < h.walks.len(),
    ensures
        is_on_course(h, opening(name, entries), i),
    decreases i,
{
    let start = opening(name, entries);
    if i > 0 {
        lemma_on_course(h, name, entries, i - 1);
        assert(answered(h.walks[i - 1], h.replies[i - 1], h.walks[i]));
        let c = scene_after(start, (i - 1) as nat);
        lemma_after_after(start, (i - 1) as nat, 1);
        assert(scene_after(c, 1) == next_scene(c)) by {
            reveal_with_fuel(scene_after, 2);
        }
        if i > 1 {
            assert(answered(h.walks[i - 2], h.replies[i - 2], h.walks[i - 1]));
        }
        assert(h.walks[i - 1].wf());
    }
}

/// Whether every answer is that of the disk, or that it could not do what it was
/// asked.
pub open spec fn is_answered_truly<T>(h: History, start: Scene<T>) -> bool {
    forall|i: int|
        #![trigger h.replies[i]]
        0 <= i < h.replies.len() ==> {
            ||| h.replies[i].answer() == answer_of(scene_after(start, i as nat))
            ||| h.replies[i].answer() == Answer::Failed
        }
}

proof fn lemma_stays<T>(c: Scene<T>, n: nat)
    requires
        c.step is Finished,
    ensures
        scene_after(c, n) == c,
    decreases n,
{
    if n > 0 {
        lemma_stays(next_scene(c), (n - 1) as nat);
    }
}

/// A copy that is answered until it is over has copied the payload whole where it
/// succeeds: the payload has no symlink in it, and the copy has every directory
/// and every file of it and nothing else. Whatever the disk could not do makes it
/// fail, and so does a symlink.
pub proof fn a_copy_that_succeeds_is_whole<T>(
    h: History,
    name: Seq<char>,
    entries: Seq<(Seq<char>, Tree<T>)>,
)
    requires
        h.is_history(),
        is_answered_truly(h, opening(name, entries)),
        h.walks.last().step == (Step::Finished { ok: true }),
    ensures
        !has_symlink(entries),
        scene_after(opening(name, entries), h.replies.len()).whole == copied(entries),
        forall|i: int|
            0 <= i < h.replies.len() && !(h.walks[i].step is Finished) ==> (
            #[trigger] h.replies[i]).answer() != Answer::Failed,
{
    let start = opening(name, entries);
    let last = h.replies.len();
    lemma_on_course(h, name, entries, last as int);
    let end = scene_after(start, last);
    a_payload_is_copied_whole_or_refused(name, entries);
    if has_symlink(entries) {
        let n = choose|n: nat|
            (#[trigger] scene_after(start, n)).step == (Step::Finished { ok: false });
        lemma_same_end(start, n, last);
    } else {
        let n = choose|n: nat|
            {
                let c = #[trigger] scene_after(start, n);
                c.step == (Step::Finished { ok: true }) && c.whole == copied(entries)
            };
        lemma_same_end(start, n, last);
    }
    assert forall|i: int|
        0 <= i < h.replies.len() && !(h.walks[i].step is Finished) implies (
    #[trigger] h.replies[i]).answer() != Answer::Failed by {
        assert(answered(h.walks[i], h.replies[i], h.walks[i + 1]));
        if h.replies[i].answer() == Answer::Failed {
            lemma_failed_stays(h, i + 1, last as int);
        }
    }
}

proof fn lemma_same_end<T>(start: Scene<T>, m: nat, n: nat)
    requires
        scene_after(start, m).step is Finished,
        scene_after(start, n).step is Finished,
    ensures
        scene_after(start, m) == scene_after(start, n),
{
    if m <= n {
        lemma_after_after(start, m, (n - m) as nat);
        lemma_stays(scene_after(start, m), (n - m) as nat);
    } else {
        lemma_after_after(start, n, (m - n) as nat);
        lemma_stays(scene_after(start, n), (m - n) as nat);
    }
}

proof fn lemma_failed_stays(h: History, i: int, j: int)
    requires
        h.is_history(),
        0 <= i <= j < h.walks.len(),
        h.walks[i].step == (Step::Finished { ok: false }),
    ensures
        h.walks[j].step == (Step::Finished { ok: false }),
    decreases j - i,
{
    if i < j {
        lemma_failed_stays(h, i, j - 1);
        assert(answered(h.walks[j - 1], h.replies[j - 1], h.walks[j]));
    }
}

/// Whether a directory holds directories and files alone, at any depth.
pub open spec fn is_plain<T>(entries: Seq<(Seq<char>, Tree<T>)>) -> bool
    decreases entries,
{
    entries.len() > 0 ==> {
        &&& match entries[0].1 {
            Tree::Dir(inner) => is_plain(inner),
            Tree::File(_) => true,
            _ => false,
        }
        &&& is_plain(entries.drop_first())
    }
}

/// A payload of directories and files alone is copied as it is, to the last file
/// of the deepest directory.
pub proof fn a_plain_payload_is_copied_as_it_is<T>(entries: Seq<(Seq<char>, Tree<T>)>)
    requires
        is_plain(entries),
    ensures
        copied(entries) == entries,
        !has_symlink(entries),
    decreases entries,
{
    if entries.len() > 0 {
        let first = entries[0];
        a_plain_payload_is_copied_as_it_is(entries.drop_first());
        match first.1 {
            Tree::Dir(inner) => {
                assert(decreases_to!(entries => first));
                assert(decreases_to!(first => first.1));
                a_plain_payload_is_copied_as_it_is(inner);
                assert(first == (first.0, Tree::Dir(copied(inner))));
            },
            _ => {},
        }
        assert(seq![first] + entries.drop_first() =~= entries);
    } else {
        assert(copied(entries) =~= entries);
    }
}

/// Entries are copied each for itself, so what stands beside one does not matter
/// to it, and a symlink anywhere is a symlink in the payload.
pub proof fn entries_are_copied_each_for_itself<T>(
    a: Seq<(Seq<char>, Tree<T>)>,
    b: Seq<(Seq<char>, Tree<T>)>,
)
    ensures
        copied(a + b) == copied(a) + copied(b),
        has_symlink(a + b) <==> has_symlink(a) || has_symlink(b),
    decreases a.len(),
{
    let all = a + b;
    if a.len() == 0 {
        assert(all =~= b);
        assert(copied(a) + copied(b) =~= copied(b));
    } else {
        let rest = a.drop_first();
        assert(all.drop_first() =~= rest + b);
        assert(all[0] == a[0]);
        entries_are_copied_each_for_itself(rest, b);
        assert(copied(all) =~= copied(a) + copied(b));
    }
}

/// What becomes of one entry: a file is copied and so is a directory, with what is
/// copied of its own entries; a symlink, or a directory with one anywhere in it,
/// is a symlink in the payload; and what is none of these is passed over.
pub proof fn what_becomes_of_an_entry<T>(
    name: Seq<char>,
    t: T,
    inner: Seq<(Seq<char>, Tree<T>)>,
)
    ensures
        copied(seq![(name, Tree::File(t))]) == seq![(name, Tree::File(t))],
        copied(seq![(name, Tree::Dir(inner))]) == seq![(name, Tree::Dir(copied(inner)))],
        copied(seq![(name, Tree::<T>::Other)]).len() == 0,
        !has_symlink(seq![(name, Tree::File(t))]),
        !has_symlink(seq![(name, Tree::<T>::Other)]),
        has_symlink(seq![(name, Tree::<T>::Symlink)]),
        has_symlink(seq![(name, Tree::Dir(inner))]) <==> has_symlink(inner),
{
    let none = Seq::<(Seq<char>, Tree<T>)>::empty();
    let file = seq![(name, Tree::File(t))];
    let dir = seq![(name, Tree::Dir(inner))];
    let other = seq![(name, Tree::<T>::Other)];
    let link = seq![(name, Tree::<T>::Symlink)];
    assert(file.drop_first() =~= none);
    assert(dir.drop_first() =~= none);
    assert(other.drop_first() =~= none);
    assert(link.drop_first() =~= none);
    assert(copied(none) =~= none);
    assert(!has_symlink(none));
    assert(copied(file) =~= file);
    assert(copied(dir) =~= seq![(name, Tree::Dir(copied(inner)))]);
}

/// A copy that is over has succeeded exactly where the payload has no symlink in
/// it and the disk did all that it was asked: nothing else makes it fail.
pub proof fn a_copy_fails_only_for_a_cause<T>(
    h: History,
    name: Seq<char>,
    entries: Seq<(Seq<char>, Tree<T>)>,
)
    requires
        h.is_history(),
        is_answered_truly(h, opening(name, entries)),
        h.walks.last().step is Finished,
    ensures
        h.walks.last().step == (Step::Finished { ok: true }) <==> {
            &&& !has_symlink(entries)
            &&& forall|i: int|
                0 <= i < h.replies.len() && !(h.walks[i].step is Finished) ==> (
                #[trigger] h.replies[i]).answer() != Answer::Failed
        },
{
    let start = opening(name, entries);
    let last = h.replies.len();
    if h.walks.last().step == (Step::Finished { ok: true }) {
        a_copy_that_succeeds_is_whole(h, name, entries);
    } else if !has_symlink(entries) && (forall|i: int|
        0 <= i < h.replies.len() && !(h.walks[i].step is Finished) ==> (
        #[trigger] h.replies[i]).answer() != Answer::Failed) {
        lemma_keeps_course(h, name, entries, last as int);
        a_payload_is_copied_whole_or_refused(name, entries);
        let n = choose|n: nat|
            {
                let c = #[trigger] scene_after(start, n);
                c.step == (Step::Finished { ok: true }) && c.whole == copied(entries)
            };
        lemma_same_end(start, n, last);
    }
}

proof fn lemma_keeps_course<T>(
    h: History,
    name: Seq<char>,
    entries: Seq<(Seq<char>, Tree<T>)>,
    i: int,
)
    requires
        h.is_history(),
        is_answered_truly(h, opening(name, entries)),
        forall|i: int|
            0 <= i < h.replies.len() && !(h.walks[i].step is Finished) ==> (
            #[trigger] h.replies[i]).answer() != Answer::Failed,
        0 <= i < h.walks.len(),
    ensures
        h.walks[i].step == scene_after(opening(name, entries), i as nat).step,
        h.walks[i].step is Finished || h.walks[i].depth == scene_after(
            opening(name, entries),
            i as nat,
        ).open.len(),
    decreases i,
{
    let start = opening(name, entries);
    if i > 0 {
        lemma_keeps_course(h, name, entries, i - 1);
        let c = scene_after(start, (i - 1) as nat);
        lemma_after_after(start, (i - 1) as nat, 1);
        assert(scene_after(c, 1) == next_scene(c)) by {
            reveal_with_fuel(scene_after, 2);
        }
        assert(answered(h.walks[i - 1], h.replies[i - 1], h.walks[i]));
        if i > 1 {
            assert(answered(h.walks[i - 2], h.replies[i - 2], h.walks[i - 1]));
        }
        assert(h.walks[i - 1].wf());
    }
}

/// A copy that fails says why: for the reason that the disk gave, or naming the
/// symlink that it refused. Nothing else changes what it says.
pub proof fn a_copy_says_why_it_failed(before: Walk, reply: Reply, after: Walk)
    requires
        answered(before, reply, after),
        !(before.step is Finished),
    ensures
        reply matches Reply::Failed { cause } ==> after.error@ == cause@ && after.step == (
        Step::Finished { ok: false }),
        before.step is Next ==> (reply matches Reply::Entry { kind: Kind::Symlink, place }
            ==> text::ends_with(after.error@, place@) && after.step == (Step::Finished {
            ok: false,
        })),
        after.step != (Step::Finished { ok: false }) ==> after.error@ == before.error@,
{
    match reply {
        Reply::Entry { kind: Kind::Symlink, place } => {
            text_laws::starting_and_ending("refusing to copy symlink "@ + place@, place@);
        },
        _ => {},
    }
}

} // verus!
