//! Windows: an install the MSI owns is upgraded by the MSI.

use vstd::prelude::*;

use crate::apply::Applied;
use crate::release::{self, ReleaseAsset};
use crate::text::{self, Class};

verus! {

/// A line without the carriage return it ends with, if it does.
pub open spec fn chomped(line: Seq<char>) -> Seq<char> {
    if line.len() > 0 && line.last() == '\r' {
        line.drop_last()
    } else {
        line
    }
}

/// The lines of a text, without what ends them: a line feed, or a carriage
/// return and a line feed.
pub open spec fn lines(s: Seq<char>) -> Seq<Seq<char>>
    decreases s.len(),
{
    let i = text::until(s, Class::LineFeed) as int;
    if s.len() == 0 {
        seq![]
    } else if 0 <= i < s.len() {
        seq![chomped(s.take(i))] + lines(s.skip(i + 1))
    } else {
        seq![s]
    }
}

/// The value on one line of `reg query` output, if the line names `name`: the
/// name, white space, a kind that starts with `REG_`, white space, the value.
/// The name ends at white space, or `ProductCodeOther` would answer for
/// `ProductCode`.
pub open spec fn line_value(line: Seq<char>, name: Seq<char>) -> Option<Seq<char>> {
    let named = text::strip_start(line, Class::Space);
    let rest = named.skip(name.len() as int);
    let typed = text::strip_start(rest, Class::Space);
    let i = text::until(typed, Class::Space) as int;
    if text::starts_with(named, name) && rest.len() > 0 && text::is_space(rest[0]) && i
        < typed.len() && text::starts_with(typed.take(i), "REG_"@) {
        Some(text::trim(typed.skip(i + 1)))
    } else {
        None
    }
}

/// The value on the first line that has one.
pub open spec fn first_value(lines: Seq<Seq<char>>, name: Seq<char>) -> Option<Seq<char>>
    decreases lines.len(),
{
    if lines.len() == 0 {
        None
    } else {
        match line_value(lines[0], name) {
            Some(v) => Some(v),
            None => first_value(lines.drop_first(), name),
        }
    }
}

/// The value of `name` in `reg query` output: that on the first line that has
/// one, unless it is empty.
pub open spec fn reg_value(output: Seq<char>, name: Seq<char>) -> Option<Seq<char>> {
    match first_value(lines(output), name) {
        Some(v) => if v.len() > 0 {
            Some(v)
        } else {
            None
        },
        None => None,
    }
}

/// The value on one line of `reg query` output, if the line names `name`.
fn value_on<'a>(line: &'a str, name: &str) -> (r: Option<&'a str>)
    ensures
        text::str_of(r) == line_value(line@, name@),
{
    let named = text::stripped_start(line, Class::Space);
    if !text::begins(named, name) {
        return None;
    }
    let rest = named.substring_char(name.unicode_len(), named.unicode_len());
    assert(rest@ =~= named@.skip(name@.len() as int));
    if rest.unicode_len() == 0 || !Class::Space.has(rest.get_char(0)) {
        return None;
    }
    match text::split_first(text::stripped_start(rest, Class::Space), Class::Space) {
        Some((kind, value)) => if text::begins(kind, "REG_") {
            Some(text::trimmed(value))
        } else {
            None
        },
        None => None,
    }
}

/// Pull one value out of `reg query` output, whose shape is
/// `    <name>    REG_SZ    <value>` under a key heading.
pub fn parse_reg_value(output: &str, name: &str) -> (r: Option<String>)
    ensures
        text::text_of(r) == reg_value(output@, name@),
{
    let mut rest = output;
    let mut found: Option<&str> = None;
    let mut more = true;
    while more
        invariant
            more ==> found is None && first_value(lines(output@), name@) == first_value(
                lines(rest@),
                name@,
            ),
            !more ==> text::str_of(found) == first_value(lines(output@), name@),
        decreases
                if more {
                    rest@.len() + 1
                } else {
                    0
                },
    {
        let ghost all = lines(rest@);
        if rest.is_empty() {
            more = false;
        } else {
            match text::split_first(rest, Class::LineFeed) {
                Some((line, behind)) => {
                    let n = line.unicode_len();
                    let line = if n > 0 && line.get_char(n - 1) == '\r' {
                        line.substring_char(0, n - 1)
                    } else {
                        line
                    };
                    proof {
                        assert(line@ =~= all[0]);
                        assert(all.drop_first() =~= lines(behind@));
                    }
                    found = value_on(line, name);
                    more = found.is_none();
                    rest = behind;
                },
                None => {
                    proof {
                        reveal_with_fuel(first_value, 2);
                        assert(all =~= seq![rest@]);
                        assert(all.drop_first() =~= Seq::<Seq<char>>::empty());
                    }
                    found = value_on(rest, name);
                    more = false;
                },
            }
        }
    }
    match found {
        Some(v) => if v.is_empty() {
            None
        } else {
            Some(v.to_owned())
        },
        None => None,
    }
}

/// Whether `c` is a hexadecimal digit.
pub open spec fn is_hex(c: char) -> bool {
    '0' <= c <= '9' || 'a' <= c <= 'f' || 'A' <= c <= 'F'
}

/// Whether place `i` of a braced GUID is one of its four dashes.
pub open spec fn is_dash_place(i: int) -> bool {
    i == 9 || i == 14 || i == 19 || i == 24
}

/// A registry-shaped GUID, `{8-4-4-4-12}`: in braces, five runs of hexadecimal
/// digits with a dash between each and the next.
pub open spec fn is_guid(s: Seq<char>) -> bool {
    &&& s.len() == 38
    &&& s[0] == '{'
    &&& s[37] == '}'
    &&& forall|i: int|
        0 < i < 37 ==> if is_dash_place(i) {
            #[trigger] s[i] == '-'
        } else {
            is_hex(s[i])
        }
}

/// A registry-shaped GUID, `{8-4-4-4-12}`. The value is user-writable, and it
/// is about to name a registry key.
pub fn is_product_code(value: &str) -> (r: bool)
    ensures
        r == is_guid(value@),
{
    let v = text::chars(value);
    if v.len() != 38 || v[0] != '{' || v[37] != '}' {
        return false;
    }
    let mut i: usize = 1;
    while i < 37
        invariant
            v@ == value@,
            v.len() == 38,
            1 <= i <= 37,
            forall|j: int|
                0 < j < i ==> if is_dash_place(j) {
                    #[trigger] v@[j] == '-'
                } else {
                    is_hex(v@[j])
                },
        decreases 37 - i,
    {
        let c = v[i];
        let fits = if i == 9 || i == 14 || i == 19 || i == 24 {
            c == '-'
        } else {
            ('0' <= c && c <= '9') || ('a' <= c && c <= 'f') || ('A' <= c && c <= 'F')
        };
        if !fits {
            assert(!is_guid(value@)) by {
                assert(value@[i as int] == c);
            }
            return false;
        }
        i = i + 1;
    }
    true
}

/// The product code in what querying for it printed, if it printed one.
pub open spec fn product_code(output: Option<Seq<char>>) -> Option<Seq<char>> {
    match output {
        Some(o) => match reg_value(o, "ProductCode"@) {
            Some(code) => if is_guid(code) {
                Some(code)
            } else {
                None
            },
            None => None,
        },
        None => None,
    }
}

/// The ProductCode of the MSI that installed this copy, if one did.
///
/// MSI names the Add/Remove Programs entry by a code that changes with every
/// release, so the installer records the current one at a path that does not.
/// Its presence is also the only reliable answer to "was this installed by the
/// MSI", which decides how an upgrade is applied. `output` is what querying the
/// marker key for `ProductCode` printed, if it succeeded.
pub fn msi_product_code(output: Option<&str>) -> (r: Option<String>)
    ensures
        text::text_of(r) == product_code(text::str_of(output)),
{
    match output {
        Some(o) => match parse_reg_value(o, "ProductCode") {
            Some(code) => if is_product_code(code.as_str()) {
                Some(code)
            } else {
                None
            },
            None => None,
        },
        None => None,
    }
}

/// The directory the package is downloaded to, below the one for temporary
/// files. It is not in the install directory: the process exits before the
/// installer is finished, so nothing could clean up after it there, and debris
/// in the install directory is what a self-updating MSI install must not leave.
pub const STAGING: &'static str = "selvedge-update";

/// The installer, and what it is told before and behind the package: to install
/// it, and to show what it does. A per-user install needs no elevation, but it
/// does need somewhere to say so when a file is in use; a silent install that
/// hit that would schedule a reboot without telling anyone.
pub const INSTALLER: &'static str = "msiexec";

pub const INSTALL_FLAG: &'static str = "/i";

pub const PROGRESS_FLAG: &'static str = "/qb";

/// What an upgrade by the installer is waiting for.
#[derive(Debug, Clone, Copy, PartialEq, Eq, Structural)]
pub enum Step {
    Clear,
    MakeStaging,
    CreatePackage,
    Download,
    Launch,
    Finished { launched: bool },
}

/// What to do next.
#[derive(Debug, Clone)]
pub enum Action {
    /// Remove the staging directory and all in it.
    Clear,
    /// Create the staging directory.
    MakeStaging,
    /// Create the file of that name in it, which the package is downloaded to.
    CreatePackage(String),
    /// Download that asset into that file.
    Download(ReleaseAsset),
    /// Start the installer on the file of that name, and do not wait for it.
    Launch(String),
    /// Nothing: the upgrade is the installer's now, or has failed.
    Stop,
}

/// The step that follows.
pub open spec fn next_step(step: Step, done: bool) -> Step {
    match step {
        Step::Clear => Step::MakeStaging,
        Step::MakeStaging if done => Step::CreatePackage,
        Step::CreatePackage if done => Step::Download,
        Step::Download if done => Step::Launch,
        Step::Launch if done => Step::Finished { launched: true },
        Step::Finished { launched } => Step::Finished { launched },
        _ => Step::Finished { launched: false },
    }
}

/// Why an upgrade fails at `step`, if failing there makes it fail.
pub open spec fn failure(step: Step, place: Seq<char>, cause: Seq<char>) -> Option<Seq<char>> {
    match step {
        Step::MakeStaging => Some("cannot create staging dir "@ + place + ": "@ + cause),
        Step::CreatePackage => Some("cannot create "@ + place + ": "@ + cause),
        Step::Download => Some("download failed: "@ + cause),
        Step::Launch => Some("failed to launch msiexec: "@ + cause),
        _ => None,
    }
}

/// One upgrade by the installer.
#[derive(Debug, Clone)]
pub struct Upgrade {
    pub version: String,
    /// The package.
    pub asset: ReleaseAsset,
    pub step: Step,
    /// Why it failed, once it has.
    pub error: String,
}

/// Start handing the upgrade to `version` to the installer, with the package
/// `asset`, so Windows keeps describing what is on disk.
///
/// It ends while the installer is still running, and it has to: the package
/// replaces the executable this process is running from. MSI cannot replace a
/// locked file without scheduling a reboot, so the caller exits and the
/// installer proceeds into a directory nobody holds open.
///
/// The cached status is not touched: the installer may fail or be cancelled, so
/// recording that the new version is installed would hide a still-pending
/// upgrade until something else re-checked. The next check settles it honestly.
pub fn msi_upgrade(version: &str, asset: ReleaseAsset) -> (r: Upgrade)
    ensures
        r.version@ == version@,
        r.asset == asset,
        r.step == Step::Clear,
        r.error@ == Seq::<char>::empty(),
{
    Upgrade { version: version.to_owned(), asset, step: Step::Clear, error: String::new() }
}

/// A step that failed: at that path, as it is shown to a user, for that reason.
#[derive(Debug, Clone, PartialEq, Eq)]
pub struct Failed {
    pub place: String,
    pub cause: String,
}

/// What answering an upgrade's action with `reply` makes of it.
pub open spec fn answered(before: Upgrade, reply: Result<(), Failed>, after: Upgrade) -> bool {
    &&& after.version == before.version
    &&& after.asset == before.asset
    &&& after.step == next_step(before.step, reply is Ok)
    &&& after.error@ == match reply {
        Ok(_) => before.error@,
        Err(f) => match failure(before.step, f.place@, f.cause@) {
            Some(e) => e,
            None => before.error@,
        },
    }
}

/// Whether `r` is what an upgrade asks for next.
pub open spec fn is_asked(upgrade: Upgrade, r: Action) -> bool {
    match upgrade.step {
        Step::Clear => r is Clear,
        Step::MakeStaging => r is MakeStaging,
        Step::CreatePackage => r matches Action::CreatePackage(name) && name@
            == upgrade.asset.name@,
        Step::Download => r matches Action::Download(asset) && release::same_asset(
            asset,
            upgrade.asset,
        ),
        Step::Launch => r matches Action::Launch(name) && name@ == upgrade.asset.name@,
        Step::Finished { launched: _ } => r is Stop,
    }
}

/// Whether `r` is how an upgrade ended, if it did.
pub open spec fn is_ended(upgrade: Upgrade, r: Option<Result<Applied, String>>) -> bool {
    match upgrade.step {
        Step::Finished { launched: true } => {
            &&& r matches Some(Ok(a))
            &&& a.version == upgrade.version
            &&& a.frontends@.len() == 0
            &&& a.installer_launched
        },
        Step::Finished { launched: false } => r matches Some(Err(e)) && e@ == upgrade.error@,
        _ => r is None,
    }
}

impl Upgrade {
    /// What to do next.
    pub fn action(&self) -> (r: Action)
        ensures
            is_asked(*self, r),
    {
        match self.step {
            Step::Clear => Action::Clear,
            Step::MakeStaging => Action::MakeStaging,
            Step::CreatePackage => Action::CreatePackage(self.asset.name.clone()),
            Step::Download => Action::Download(self.asset.again()),
            Step::Launch => Action::Launch(self.asset.name.clone()),
            Step::Finished { launched: _ } => Action::Stop,
        }
    }

    /// Take the answer to [`action`](Upgrade::action).
    pub fn answer(&mut self, reply: Result<(), Failed>)
        ensures
            answered(*old(self), reply, *final(self)),
    {
        match reply {
            Ok(_) => {
                self.step = match self.step {
                    Step::Clear => Step::MakeStaging,
                    Step::MakeStaging => Step::CreatePackage,
                    Step::CreatePackage => Step::Download,
                    Step::Download => Step::Launch,
                    Step::Launch => Step::Finished { launched: true },
                    Step::Finished { launched } => Step::Finished { launched },
                };
            },
            Err(f) => {
                let place = f.place.as_str();
                let cause = f.cause.as_str();
                match self.step {
                    Step::Clear => {
                        self.step = Step::MakeStaging;
                        return ;
                    },
                    Step::Finished { launched: _ } => {
                        return ;
                    },
                    Step::MakeStaging => {
                        self.error = text::cat3("cannot create staging dir ", place, ": ").concat(
                            cause,
                        );
                    },
                    Step::CreatePackage => {
                        self.error = text::cat3("cannot create ", place, ": ").concat(cause);
                    },
                    Step::Download => {
                        self.error = text::cat2("download failed: ", cause);
                    },
                    Step::Launch => {
                        self.error = text::cat2("failed to launch msiexec: ", cause);
                    },
                }
                self.step = Step::Finished { launched: false };
            },
        }
    }

    /// Once it is over, that the installer is running, or why it is not.
    pub fn finish(self) -> (r: Option<Result<Applied, String>>)
        ensures
            is_ended(self, r),
    {
        match self.step {
            Step::Finished { launched } => if launched {
                Some(
                    Ok(
                        Applied {
                            version: self.version,
                            frontends: Vec::new(),
                            installer_launched: true,
                        },
                    ),
                )
            } else {
                Some(Err(self.error))
            },
            _ => None,
        }
    }
}

/// An upgrade from its start on: what it was at each step, and how each of its
/// actions was answered.
pub struct History {
    pub upgrades: Seq<Upgrade>,
    pub replies: Seq<Result<(), Failed>>,
}

impl History {
    /// Whether the upgrade starts as a new one does and each answer made of it
    /// what [`Upgrade::answer`] makes of it.
    pub open spec fn is_history(self) -> bool {
        &&& self.upgrades.len() == self.replies.len() + 1
        &&& self.upgrades[0].step == Step::Clear
        &&& forall|i: int|
            #![trigger self.replies[i]]
            0 <= i < self.replies.len() ==> answered(
                self.upgrades[i],
                self.replies[i],
                self.upgrades[i + 1],
            )
    }

    /// Whether, before place `i`, the package was downloaded without a failure.
    pub open spec fn has_package(self, i: int) -> bool {
        exists|j: int|
            #![trigger self.replies[j]]
            0 <= j < i && j < self.replies.len() && self.upgrades[j].step is Download
                && self.replies[j] is Ok
    }
}

/// The installer is started only on a package that was downloaded without a
/// failure, and it is the package that the upgrade was given; an upgrade counts as
/// launched only where starting the installer worked.
pub proof fn only_a_whole_package_is_launched(h: History, i: int)
    requires
        h.is_history(),
        0 <= i < h.upgrades.len(),
    ensures
        h.upgrades[i].asset == h.upgrades[0].asset,
        h.upgrades[i].version == h.upgrades[0].version,
        h.upgrades[i].step is Launch ==> h.has_package(i),
        h.upgrades[i].step == (Step::Finished { launched: true }) ==> h.has_package(i) && exists|
            j: int,
        |
            #![trigger h.replies[j]]
            0 <= j < i && h.upgrades[j].step is Launch && h.replies[j] is Ok,
    decreases i,
{
    if i > 0 {
        only_a_whole_package_is_launched(h, i - 1);
        assert(answered(h.upgrades[i - 1], h.replies[i - 1], h.upgrades[i]));
        if h.has_package(i - 1) {
            let j = choose|j: int|
                #![trigger h.replies[j]]
                0 <= j < i - 1 && j < h.replies.len() && h.upgrades[j].step is Download
                    && h.replies[j] is Ok;
            assert(h.replies[j] is Ok);
            assert(h.has_package(i));
        }
    }
}

} // verus!
