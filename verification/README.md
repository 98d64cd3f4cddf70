# selvedge

The self-finished edge of a piece of cloth is the bit that stops it
unravelling. This is the same idea for a desktop widget that ships as a binary
plus the QML and JavaScript that binary feeds: it keeps them from coming apart.

It fetches a release from GitHub, replaces the running binary, and reinstalls
the desktop payloads from the same archive, so the binary and its frontends can
never be a release apart. A caller declares what the machinery cannot know in
one value, a `selvedge::Project`.

## Layout

- `src/` is the library: every rule and every decision, with its contract, proved
  by Verus. It does no work on disk, on the network or with other processes.
  Where a decision needs such work, a value of the library says what to do next
  and takes back how it went.
- `app/` does that work: it reads the environment and the disk, downloads,
  extracts, renames and spawns as the library says.
- `tests/` drives the library against projects and disks that do not exist.

| module | what it decides |
| --- | --- |
| `project`, `place`, `frontend` | what a project ships, and where it belongs |
| `install`, `copy` | replacing an installed frontend with a new payload |
| `release`, `version` | which release is newest, and what it offers this platform |
| `update`, `apply`, `aliases`, `msi` | checking for an update and applying it |
| `state`, `write` | the cached status, announcing from it, and rewriting it |
| `proc` | what on `PATH` is a program, and what its output says |

`install_laws`, `apply_laws`, `one_release`, `job_laws` and `cache_laws` hold what
is proved of whole runs: what an update leaves behind comes from one archive, binaries and
frontends alike; an install that fails leaves the old one on disk; a binary that
an update leaves behind is the old copy or the new one; a job touches nothing
without its lock, and reports every frontend it dealt with; the
rewrites of a cache by checks, updates and announcements never interleave.

## The lock

An update takes an exclusive lock on the install directory so one fired from
the panel and one fired from a terminal cannot race on the same staging
directory. The lock is the kernel's, held on an open descriptor, rather than
the existence of a file: a process that is killed closes its descriptors, and
the next update proceeds.
