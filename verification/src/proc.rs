//! Finding and running the things a project does not ship.
//!
//! Every caller of this crate shells out: to a schema compiler, to a shell
//! restart, to whatever draws a desktop notification. The rules are the same
//! each time - resolve on `PATH` and answer for what is actually runnable,
//! never inherit stdin, and treat a missing program as an answer rather than
//! an error.

use vstd::prelude::*;

use crate::release::Os;
use crate::text::{self, Class};
use crate::text_laws;

verus! {

/// What is known of something on disk.
#[derive(Debug, Clone, Copy, PartialEq, Eq, Structural)]
pub struct FileFacts {
    pub is_file: bool,
    /// The permission bits, where the platform has them.
    pub mode: u32,
}

/// Whether something can be run: it is there, it is a file, and where there are
/// execute bits one of them is set.
pub open spec fn runnable(os: Os, facts: Option<FileFacts>) -> bool {
    match facts {
        Some(f) => f.is_file && (os == Os::Unix ==> f.mode & 0o111 != 0),
        None => false,
    }
}

/// A file is not a program. A `PATH` walk that stops at `is_file` answers with
/// a data file that happens to share the name, and the caller spawns it and
/// fails somewhere less obvious.
pub fn is_executable(os: Os, facts: Option<FileFacts>) -> (r: bool)
    ensures
        r == runnable(os, facts),
{
    match facts {
        Some(f) => f.is_file && (os != Os::Unix || f.mode & 0o111 != 0),
        None => false,
    }
}

/// Whether `r` is the place of the first candidate that can be run.
pub open spec fn is_found(os: Os, candidates: Seq<Option<FileFacts>>, r: Option<usize>) -> bool {
    match r {
        Some(i) => {
            &&& i < candidates.len()
            &&& runnable(os, candidates[i as int])
            &&& forall|j: int| 0 <= j < i ==> !runnable(os, #[trigger] candidates[j])
        },
        None => forall|j: int|
            0 <= j < candidates.len() ==> !runnable(os, #[trigger] candidates[j]),
    }
}

/// The first executable on `PATH`: `candidates` is what is known, for each
/// directory of `PATH` in turn, of the file of the wanted name in it. What comes
/// back is the place of the first that can be run.
pub fn which(os: Os, candidates: &Vec<Option<FileFacts>>) -> (r: Option<usize>)
    ensures
        is_found(os, candidates@, r),
{
    let mut i: usize = 0;
    while i < candidates.len()
        invariant
            i <= candidates@.len(),
            forall|j: int| 0 <= j < i ==> !runnable(os, #[trigger] candidates@[j]),
        decreases candidates.len() - i,
    {
        if is_executable(os, candidates[i]) {
            return Some(i);
        }
        i = i + 1;
    }
    None
}

/// Whether any candidate can be run.
pub fn has(os: Os, candidates: &Vec<Option<FileFacts>>) -> (r: bool)
    ensures
        r == exists|j: int|
            0 <= j < candidates@.len() && runnable(os, #[trigger] candidates@[j]),
{
    which(os, candidates).is_some()
}

/// What a command run for its exit status alone amounts to: `status` is whether
/// it exited successfully, or nothing where it could not be run.
pub fn run_quiet(status: Option<bool>) -> (r: bool)
    ensures
        r == (status == Some(true)),
{
    match status {
        Some(success) => success,
        None => false,
    }
}

/// What a command that succeeded printed, without the white space at its end.
pub open spec fn printed(status: Option<bool>, stdout: Seq<char>) -> Option<Seq<char>> {
    if status == Some(true) {
        Some(text::strip_end(stdout, Class::Space))
    } else {
        None
    }
}

/// Trimmed stdout of a command that succeeded, or `None`: `status` is whether it
/// exited successfully, or nothing where it could not be run.
pub fn output(status: Option<bool>, stdout: &str) -> (r: Option<String>)
    ensures
        text::text_of(r) == printed(status, stdout@),
{
    if run_quiet(status) {
        Some(text::stripped_end(stdout, Class::Space).to_owned())
    } else {
        None
    }
}

/// On a system with execute bits a file is a program exactly where its owner, its
/// group or anyone else may run it, whatever else its mode says.
pub proof fn any_execute_bit_makes_a_program(mode: u32)
    ensures
        runnable(Os::Unix, Some(FileFacts { is_file: true, mode })) <==> mode & 0o100 != 0 || mode
            & 0o010 != 0 || mode & 0o001 != 0,
{
    assert(mode & 0o111 != 0 <==> (mode & 0o100 != 0 || mode & 0o010 != 0 || mode & 0o001 != 0))
        by (bit_vector);
}

/// What is not a file is no program anywhere, nor is what is not there; and where
/// there are no execute bits every file is one.
pub proof fn only_files_are_programs(os: Os, mode: u32)
    ensures
        !runnable(os, None),
        !runnable(os, Some(FileFacts { is_file: false, mode })),
        runnable(Os::Windows, Some(FileFacts { is_file: true, mode })),
{
}

/// The first directory that has a program answers, and there is an answer exactly
/// where some directory has one. One in front that has none changes the place and
/// nothing else.
pub proof fn the_first_program_answers(
    os: Os,
    first: Option<FileFacts>,
    candidates: Seq<Option<FileFacts>>,
    r: Option<usize>,
    i: usize,
)
    ensures
        runnable(os, first) ==> is_found(os, seq![first] + candidates, Some(0)),
        is_found(os, candidates, None) <==> !exists|j: int|
            0 <= j < candidates.len() && runnable(os, #[trigger] candidates[j]),
        is_found(os, candidates, Some(i)) && is_found(os, candidates, r) ==> r == Some(i),
        !runnable(os, first) && is_found(os, candidates, Some(i)) && i < usize::MAX ==> is_found(
            os,
            seq![first] + candidates,
            Some((i + 1) as usize),
        ),
{
    let more = seq![first] + candidates;
    assert(more[0] == first);
    if !runnable(os, first) && is_found(os, candidates, Some(i)) && i < usize::MAX {
        assert(more[i + 1] == candidates[i as int]);
        assert forall|j: int| 0 <= j < i + 1 implies !runnable(os, #[trigger] more[j]) by {
            if j > 0 {
                assert(more[j] == candidates[j - 1]);
            }
        }
    }
    if is_found(os, candidates, Some(i)) && is_found(os, candidates, r) {
        match r {
            Some(k) => {
                assert(runnable(os, candidates[k as int]));
                assert(runnable(os, candidates[i as int]));
            },
            None => {
                assert(runnable(os, candidates[i as int]));
            },
        }
    }
}

/// What a command printed is an answer exactly where it succeeded: all of it but
/// the white space at its end.
pub proof fn what_was_printed_is_the_answer(said: Seq<char>, behind: Seq<char>)
    requires
        text_laws::is_all(behind, Class::Space),
        said.len() > 0 ==> !text::is_space(said.last()),
    ensures
        printed(Some(true), said + behind) == Some(said),
        printed(Some(false), said) is None,
        printed(None, said) is None,
{
    text_laws::the_end_is_stripped(said, behind, Class::Space);
}

} // verus!
