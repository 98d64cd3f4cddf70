//! Desktop frontends that are not binaries.
//!
//! The Plasma applet, the GNOME extension and the Omarchy bar widget are QML
//! and JavaScript installed outside `~/.local/bin`, so replacing the binary
//! leaves them untouched. A newer binary feeding older QML looks like a missing
//! feature rather than a stale install.
//!
//! Nothing here touches a network or a disk. [`crate::update`] owns fetching a
//! release and [`crate::install`] replacing a copy; this owns knowing where each
//! artifact belongs and what version is sitting there.

use vstd::prelude::*;

use crate::place::{self, Base, Environment, Location, Path};
use crate::project::Project;
use crate::text::{self, Class};

verus! {

/// Directory inside the release archive holding the frontend payloads.
pub const ARCHIVE_ROOT: &'static str = "frontends";

/// Directory a checkout assembles its payloads into, in the archive's own
/// layout. The project's build script writes it; it is not in the repository.
pub const BUILD_ROOT: &'static str = "build";

/// The directory of a payload that its GSettings schemas are in.
pub const SCHEMAS_DIR: &'static str = "schemas";

/// The compiled schemas, below the directory of an installed copy.
pub const SCHEMAS_BLOB: &'static str = "schemas/gschemas.compiled";

/// The program that compiles the schemas of a directory.
pub const SCHEMA_COMPILER: &'static str = "glib-compile-schemas";

/// What has to happen before a freshly installed frontend is actually running.
#[derive(Debug, Clone, Copy, PartialEq, Eq)]
pub enum Restart {
    /// Picks itself up, or needs a cheap restart the user already knows about.
    Cheap(&'static str),
    /// Needs the whole session restarted - GNOME Shell cannot reload an
    /// extension on Wayland without logging out.
    Session(&'static str),
}

impl Restart {
    /// What to tell the user, either way.
    pub fn hint(&self) -> (r: &'static str)
        ensures
            r@ == match *self {
                Restart::Cheap(h) => h@,
                Restart::Session(h) => h@,
            },
    {
        match self {
            Restart::Cheap(h) => *h,
            Restart::Session(h) => *h,
        }
    }

    /// Whether the whole session has to restart.
    pub fn needs_session_restart(&self) -> (r: bool)
        ensures
            r == (*self is Session),
    {
        match self {
            Restart::Cheap(_) => false,
            Restart::Session(_) => true,
        }
    }
}

/// How a frontend records its own version, so skew against the binary is
/// visible rather than silent.
#[derive(Debug, Clone, Copy)]
pub enum VersionSource {
    /// `metadata.json` -> `KPlugin.Version` (Plasma).
    PlasmaMetadata,
    /// `metadata.json` -> `version-name` (GNOME).
    GnomeMetadata,
    /// The plugin's JSON manifest -> `version` (Omarchy plugin schema).
    ManifestVersion,
}

#[derive(Debug, Clone, Copy)]
pub struct Frontend {
    pub id: &'static str,
    pub label: &'static str,
    /// Path of the payload inside the archive, below [`ARCHIVE_ROOT`], and the
    /// same path below the repository root in a checkout.
    pub payload: &'static str,
    /// Directory name the payload lands in; the id its desktop expects.
    pub artifact: &'static str,
    pub version_source: VersionSource,
    /// Ships GSettings schemas, which are XML in the payload and a compiled
    /// blob at runtime.
    pub gsettings_schemas: bool,
    /// Its sources are compiled rather than installed as they are, so in a
    /// checkout `payload` is the compiler's input and not a payload.
    /// [`payload_in`](Frontend::payload_in) looks under [`BUILD_ROOT`] for
    /// these: installing the source directory would land an extension the
    /// shell refuses to load.
    pub compiled: bool,
    pub restart: Restart,
}

/// Whether every character of a text is ASCII.
pub open spec fn all_ascii(s: Seq<char>) -> bool {
    forall|i: int| 0 <= i < s.len() ==> #[trigger] s[i] <= '\u{7f}'
}

/// An ASCII capital as its small letter, and any other character as it is.
pub open spec fn small(c: char) -> char {
    if 'A' <= c <= 'Z' {
        (c as u32 + 32) as char
    } else {
        c
    }
}

/// A text with each ASCII capital as its small letter.
pub open spec fn all_small(s: Seq<char>) -> Seq<char> {
    Seq::new(s.len(), |i: int| small(s[i]))
}

/// What [`str::to_lowercase`] makes of a text.
pub uninterp spec fn lowercase(s: Seq<char>) -> Seq<char>;

/// `str::to_lowercase`: the lowercase of the text, which Unicode fixes and this
/// crate gives a name. Of a text that is ASCII throughout it is the text with
/// `A` to `Z` mapped to `a` to `z`.
#[verifier::external_body]
fn to_lowercase(s: &str) -> (r: String)
    ensures
        r@ == lowercase(s@),
        all_ascii(s@) ==> r@ == all_small(s@),
{
    s.to_lowercase()
}

/// Whether `f` is the first of `all` whose id is `id`, or nothing where none
/// has it.
pub open spec fn is_first_named(all: Seq<Frontend>, id: Seq<char>, f: Option<Frontend>) -> bool {
    match f {
        Some(f) => exists|i: int|
            {
                &&& 0 <= i < all.len()
                &&& #[trigger] all[i] == f
                &&& f.id@ == id
                &&& forall|j: int| 0 <= j < i ==> (#[trigger] all[j]).id@ != id
            },
        None => forall|j: int| 0 <= j < all.len() ==> (#[trigger] all[j]).id@ != id,
    }
}

/// A frontend that a reference leads to, where there is one.
pub open spec fn target(f: Option<&'static Frontend>) -> Option<Frontend> {
    match f {
        Some(f) => Some(*f),
        None => None,
    }
}

/// The first frontend of the project whose id is exactly `id`.
pub fn find_exact(project: &Project, id: &str) -> (r: Option<&'static Frontend>)
    ensures
        is_first_named(project.frontends@, id@, target(r)),
{
    let all = project.frontends;
    let mut i: usize = 0;
    while i < all.len()
        invariant
            i <= all@.len(),
            all@ == project.frontends@,
            forall|j: int| 0 <= j < i ==> (#[trigger] all@[j]).id@ != id@,
        decreases all.len() - i,
    {
        let f: &'static Frontend = &all[i];
        if text::same(f.id, id) {
            assert(all@[i as int] == *f);
            return Some(f);
        }
        i = i + 1;
    }
    None
}

proof fn lemma_trim_ascii(s: Seq<char>)
    requires
        all_ascii(s),
    ensures
        all_ascii(text::trim(s)),
{
    let t = text::strip_start(s, Class::Space);
    text::lemma_span_is(s, Class::Space);
    assert(all_ascii(t));
    lemma_strip_end_ascii(t);
}

proof fn lemma_strip_end_ascii(s: Seq<char>)
    requires
        all_ascii(s),
    ensures
        all_ascii(text::strip_end(s, Class::Space)),
    decreases s.len(),
{
    if s.len() > 0 && text::is_space(s.last()) {
        lemma_strip_end_ascii(s.drop_last());
    }
}

/// The frontend that an id names, however it is capitalised and whatever white
/// space is around it.
pub fn find(project: &Project, id: &str) -> (r: Option<&'static Frontend>)
    ensures
        is_first_named(project.frontends@, lowercase(text::trim(id@)), target(r)),
        all_ascii(id@) ==> is_first_named(
            project.frontends@,
            all_small(text::trim(id@)),
            target(r),
        ),
{
    let lowered = to_lowercase(text::trimmed(id));
    proof {
        if all_ascii(id@) {
            lemma_trim_ascii(id@);
        }
    }
    find_exact(project, lowered.as_str())
}

proof fn lemma_strip_end_small(s: Seq<char>)
    requires
        all_ascii(s),
    ensures
        text::strip_end(all_small(s), Class::Space) == all_small(text::strip_end(s, Class::Space)),
    decreases s.len(),
{
    if s.len() > 0 {
        assert(all_small(s).last() == small(s.last()));
        assert(text::is_space(small(s.last())) == text::is_space(s.last()));
        if text::is_space(s.last()) {
            assert(all_small(s).drop_last() =~= all_small(s.drop_last()));
            lemma_strip_end_small(s.drop_last());
        }
    }
}

proof fn lemma_trim_small(s: Seq<char>)
    requires
        all_ascii(s),
    ensures
        text::trim(all_small(s)) == all_small(text::trim(s)),
{
    let n = text::span(s, Class::Space) as int;
    text::lemma_span_is(s, Class::Space);
    assert forall|j: int| 0 <= j < n implies Class::Space.holds(#[trigger] all_small(s)[j]) by {
        assert(Class::Space.holds(s[j]));
    }
    text::lemma_span(all_small(s), Class::Space, n);
    let bare = text::strip_start(s, Class::Space);
    assert(text::strip_start(all_small(s), Class::Space) =~= all_small(bare));
    lemma_strip_end_small(bare);
}

proof fn lemma_strip_end_padded(s: Seq<char>, pad: Seq<char>)
    requires
        forall|j: int| 0 <= j < pad.len() ==> text::is_space(#[trigger] pad[j]),
    ensures
        text::strip_end(s + pad, Class::Space) == text::strip_end(s, Class::Space),
    decreases pad.len(),
{
    if pad.len() == 0 {
        assert(s + pad =~= s);
    } else {
        assert((s + pad).last() == pad[pad.len() - 1]);
        assert((s + pad).drop_last() =~= s + pad.drop_last());
        lemma_strip_end_padded(s, pad.drop_last());
    }
}

/// Two spellings of an id that differ in capitals name the same frontend.
pub proof fn capitals_do_not_matter(
    project: Project,
    a: Seq<char>,
    b: Seq<char>,
    f: Option<Frontend>,
)
    requires
        all_ascii(a),
        all_ascii(b),
        all_small(a) == all_small(b),
    ensures
        is_first_named(project.frontends@, all_small(text::trim(a)), f) <==> is_first_named(
            project.frontends@,
            all_small(text::trim(b)),
            f,
        ),
{
    lemma_trim_small(a);
    lemma_trim_small(b);
}

/// White space around an id does not change which frontend it names, whatever
/// the id is.
pub proof fn space_around_does_not_matter(
    project: Project,
    before: Seq<char>,
    id: Seq<char>,
    after: Seq<char>,
    f: Option<Frontend>,
)
    requires
        forall|j: int| 0 <= j < before.len() ==> text::is_space(#[trigger] before[j]),
        forall|j: int| 0 <= j < after.len() ==> text::is_space(#[trigger] after[j]),
    ensures
        is_first_named(project.frontends@, lowercase(text::trim(before + id + after)), f)
            <==> is_first_named(project.frontends@, lowercase(text::trim(id)), f),
{
    let whole = before + id + after;
    let n = text::span(id, Class::Space) as int;
    text::lemma_span_is(id, Class::Space);
    if n < id.len() {
        let m = before.len() + n;
        assert forall|j: int| 0 <= j < m implies Class::Space.holds(#[trigger] whole[j]) by {
            if j >= before.len() {
                assert(whole[j] == id[j - before.len()]);
            } else {
                assert(whole[j] == before[j]);
            }
        }
        assert(whole[m] == id[n]);
        text::lemma_span(whole, Class::Space, m);
        assert(whole.skip(m) =~= id.skip(n) + after);
        lemma_strip_end_padded(id.skip(n), after);
    } else {
        let m = whole.len() as int;
        assert forall|j: int| 0 <= j < m implies Class::Space.holds(#[trigger] whole[j]) by {
            if j < before.len() {
                assert(whole[j] == before[j]);
            } else if j < before.len() + id.len() {
                assert(whole[j] == id[j - before.len()]);
            } else {
                assert(whole[j] == after[j - before.len() - id.len()]);
            }
        }
        text::lemma_span(whole, Class::Space, m);
        assert(whole.skip(m) =~= id.skip(n));
    }
}

/// The contents of the string that stands in a JSON document under a pointer.
/// Nothing where the document is not JSON, the pointer leads nowhere in it, or
/// what it leads to is not a string.
pub uninterp spec fn json_string_at(raw: Seq<char>, pointer: Seq<char>) -> Option<Seq<char>>;

/// What stands in a JSON document under a pointer, written as JSON. Nothing where
/// the document is not JSON or the pointer leads nowhere in it.
pub uninterp spec fn json_shown_at(raw: Seq<char>, pointer: Seq<char>) -> Option<Seq<char>>;

/// `serde_json::from_str` into a `Value`, `Value::pointer`, then
/// `Value::as_str`: the contents of the string under the pointer, and nothing
/// where parsing fails, the pointer leads nowhere or the value is no string. The
/// result has a name and no other statement.
#[verifier::external_body]
fn string_at(raw: &str, pointer: &str) -> (r: Option<String>)
    ensures
        text::text_of(r) == json_string_at(raw@, pointer@),
{
    let parsed: serde_json::Value = serde_json::from_str(raw).ok()?;
    parsed.pointer(pointer)?.as_str().map(|s| s.to_owned())
}

/// `serde_json::from_str` into a `Value`, `Value::pointer`, then `Value`'s
/// `to_string`: the value under the pointer as JSON, and nothing where parsing
/// fails or the pointer leads nowhere. The result has a name and no other
/// statement.
#[verifier::external_body]
fn shown_at(raw: &str, pointer: &str) -> (r: Option<String>)
    ensures
        text::text_of(r) == json_shown_at(raw@, pointer@),
{
    let parsed: serde_json::Value = serde_json::from_str(raw).ok()?;
    Some(parsed.pointer(pointer)?.to_string())
}

/// The text that a metadata value counts for: the string where it is one, and
/// whatever else it is as it is shown. Plasma writes a string; a number is
/// forgiven.
pub open spec fn forgiven(string: Option<Seq<char>>, shown: Option<Seq<char>>) -> Option<
    Seq<char>,
> {
    match string {
        Some(s) => Some(s),
        None => shown,
    }
}

/// A version as a frontend's metadata writes it: no white space around it, no
/// leading `v`, and nothing where nothing is left.
pub open spec fn recorded(text: Option<Seq<char>>) -> Option<Seq<char>> {
    match text {
        Some(t) => {
            let bare = text::strip_start(text::trim(t), Class::SmallV);
            if bare.len() > 0 {
                Some(bare)
            } else {
                None
            }
        },
        None => None,
    }
}

/// The version that a metadata value records, given the value as text.
pub fn recorded_version(held: Option<&str>) -> (r: Option<String>)
    ensures
        text::text_of(r) == recorded(text::str_of(held)),
{
    let text = match held {
        Some(t) => t,
        None => return None,
    };
    let bare = text::stripped_start(text::trimmed(text), Class::SmallV);
    if bare.is_empty() {
        None
    } else {
        Some(bare.to_owned())
    }
}

/// The version that a metadata value records, given the string that it is, if it
/// is one, and the value as it is shown, if there is one.
pub fn held_version(string: Option<&str>, shown: Option<&str>) -> (r: Option<String>)
    ensures
        text::text_of(r) == recorded(forgiven(text::str_of(string), text::str_of(shown))),
{
    match string {
        Some(s) => recorded_version(Some(s)),
        None => recorded_version(shown),
    }
}

impl VersionSource {
    /// The file a frontend records its version in: JSON, under a name of the
    /// desktop's choosing.
    pub open spec fn file_name(self) -> Seq<char> {
        let stem = match self {
            VersionSource::PlasmaMetadata => "metadata"@,
            VersionSource::GnomeMetadata => "metadata"@,
            VersionSource::ManifestVersion => "manifest"@,
        };
        stem + ".json"@
    }

    /// The JSON pointer to the version in that file.
    pub open spec fn pointer_text(self) -> Seq<char> {
        match self {
            VersionSource::PlasmaMetadata => "/KPlugin/Version"@,
            VersionSource::GnomeMetadata => "/version-name"@,
            VersionSource::ManifestVersion => "/version"@,
        }
    }

    /// The file a frontend records its version in, and where in it.
    pub fn file_and_pointer(&self) -> (r: (String, &'static str))
        ensures
            r.0@ == self.file_name(),
            r.1@ == self.pointer_text(),
    {
        let (stem, pointer) = match self {
            VersionSource::PlasmaMetadata => ("metadata", "/KPlugin/Version"),
            VersionSource::GnomeMetadata => ("metadata", "/version-name"),
            VersionSource::ManifestVersion => ("manifest", "/version"),
        };
        (text::cat2(stem, ".json"), pointer)
    }
}

impl Frontend {
    /// Where this frontend's desktop expects to find it: nowhere for an id that
    /// no desktop goes by, or where the environment names no home.
    pub open spec fn destination(self, env: Environment) -> Option<Path> {
        let (home, dir) = if self.id@ == "plasma"@ {
            (place::data_home(env), "plasma/plasmoids"@)
        } else if self.id@ == "gnome"@ {
            (place::data_home(env), "gnome-shell/extensions"@)
        } else if self.id@ == "omarchy"@ {
            (place::config_home(env), "omarchy/plugins"@)
        } else {
            (None, seq![])
        };
        match home {
            Some((base, parts)) => Some((base, parts.push(dir).push(self.artifact@))),
            None => None,
        }
    }

    /// Where this frontend's desktop expects to find it.
    pub fn dest_dir(&self, env: &Environment) -> (r: Option<Location>)
        ensures
            place::path_of(r) == self.destination(*env),
    {
        if text::same(self.id, "plasma") {
            match place::find_data_home(env) {
                Some(d) => Some(d.join("plasma/plasmoids").join(self.artifact)),
                None => None,
            }
        } else if text::same(self.id, "gnome") {
            match place::find_data_home(env) {
                Some(d) => Some(d.join("gnome-shell/extensions").join(self.artifact)),
                None => None,
            }
        } else if text::same(self.id, "omarchy") {
            match place::find_config_home(env) {
                Some(c) => Some(c.join("omarchy/plugins").join(self.artifact)),
                None => None,
            }
        } else {
            None
        }
    }

    /// Whether this frontend is on the machine: `is_dir` is whether a directory
    /// stands where [`dest_dir`](Frontend::dest_dir) points, if it points
    /// anywhere.
    pub fn is_installed(&self, env: &Environment, is_dir: bool) -> (r: bool)
        ensures
            r == (self.destination(*env) is Some && is_dir),
    {
        self.dest_dir(env).is_some() && is_dir
    }

    /// The version that the text of a metadata file records, if there is one.
    pub open spec fn version_read(self, raw: Option<Seq<char>>) -> Option<Seq<char>> {
        let pointer = self.version_source.pointer_text();
        match raw {
            Some(raw) => recorded(
                forgiven(json_string_at(raw, pointer), json_shown_at(raw, pointer)),
            ),
            None => None,
        }
    }

    /// The version that a metadata file records. `raw` is the text of the file
    /// that the version source names, or nothing where it could not be read.
    pub fn version_in(&self, raw: Option<&str>) -> (r: Option<String>)
        ensures
            text::text_of(r) == self.version_read(text::str_of(raw)),
    {
        let (_, pointer) = self.version_source.file_and_pointer();
        match raw {
            Some(raw) => match (string_at(raw, pointer), shown_at(raw, pointer)) {
                (Some(string), Some(shown)) => {
                    held_version(Some(string.as_str()), Some(shown.as_str()))
                },
                (Some(string), None) => held_version(Some(string.as_str()), None),
                (None, Some(shown)) => held_version(None, Some(shown.as_str())),
                (None, None) => held_version(None, None),
            },
            None => None,
        }
    }

    /// The version that the installed copy records, if there is a place for one.
    pub open spec fn version_found(self, env: Environment, raw: Option<Seq<char>>) -> Option<
        Seq<char>,
    > {
        if self.destination(env) is Some {
            self.version_read(raw)
        } else {
            None
        }
    }

    /// The version recorded in the installed copy, which is the one actually
    /// running - not the version of the binary asking the question. `raw` is the
    /// text of the metadata file there, or nothing where it could not be read.
    pub fn installed_version(&self, env: &Environment, raw: Option<&str>) -> (r: Option<String>)
        ensures
            text::text_of(r) == self.version_found(*env, text::str_of(raw)),
    {
        match self.dest_dir(env) {
            Some(_) => self.version_in(raw),
            None => None,
        }
    }

    /// The directory that [`crate::install`] is to copy the payload to, or why
    /// there is none.
    pub fn install_from(&self, env: &Environment) -> (r: Result<Location, String>)
        ensures
            match r {
                Ok(l) => self.destination(*env) == Some(l@),
                Err(e) => {
                    &&& self.destination(*env) is None
                    &&& e@ == "cannot resolve an install directory for "@ + self.id@
                },
            },
    {
        match self.dest_dir(env) {
            Some(l) => Ok(l),
            None => Err(text::cat2("cannot resolve an install directory for ", self.id)),
        }
    }

    /// Whether a copy has the compiled schemas it needs.
    pub open spec fn is_ready(self, blob_is_file: bool) -> bool {
        !self.gsettings_schemas || blob_is_file
    }

    /// Whether the installed copy is in a state its desktop can load. Only
    /// GSettings schemas can be half-installed this way; everything else is
    /// covered by the directory being there at all. `blob_is_file` is whether
    /// the compiled schemas are there, where the copy is.
    pub fn schemas_ready(&self, env: &Environment, blob_is_file: bool) -> (r: bool)
        ensures
            r == (self.destination(*env) is None || self.is_ready(blob_is_file)),
    {
        match self.dest_dir(env) {
            Some(_) => self.schemas_ready_in(blob_is_file),
            None => true,
        }
    }

    /// Whether a copy has the compiled schemas it needs.
    pub fn schemas_ready_in(&self, blob_is_file: bool) -> (r: bool)
        ensures
            r == self.is_ready(blob_is_file),
    {
        !self.gsettings_schemas || blob_is_file
    }

    /// Where an archive keeps this payload.
    pub open spec fn archived_path(self) -> Path {
        (Base::Source, seq![ARCHIVE_ROOT@, self.payload@])
    }

    /// Where a checkout keeps this payload. For a compiled frontend that is
    /// what the build script assembled, never the sources it assembled it
    /// from.
    pub open spec fn checkout_path(self) -> Path {
        if self.compiled {
            (Base::Source, seq![BUILD_ROOT@, ARCHIVE_ROOT@, self.payload@])
        } else {
            (Base::Source, seq![self.payload@])
        }
    }

    /// Where an archive keeps this payload.
    pub fn archived_payload(&self) -> (r: Location)
        ensures
            r@ == self.archived_path(),
    {
        let r = Location::at(Base::Source).join(ARCHIVE_ROOT).join(self.payload);
        assert(r@.1 =~= self.archived_path().1);
        r
    }

    /// Where a checkout keeps this payload.
    pub fn checkout_payload(&self) -> (r: Location)
        ensures
            r@ == self.checkout_path(),
    {
        let r = if self.compiled {
            Location::at(Base::Source).join(BUILD_ROOT).join(ARCHIVE_ROOT).join(self.payload)
        } else {
            Location::at(Base::Source).join(self.payload)
        };
        assert(r@.1 =~= self.checkout_path().1);
        r
    }

    /// Where this frontend's payload is, given which of the two places it may be in
    /// is a directory.
    pub open spec fn payload_path(self, archived_is_dir: bool, checkout_is_dir: bool) -> Option<
        Path,
    > {
        if archived_is_dir {
            Some(self.archived_path())
        } else if checkout_is_dir {
            Some(self.checkout_path())
        } else {
            None
        }
    }

    /// Locate this frontend's payload under an archive root or a checkout, given
    /// which of the two places it may be in is a directory.
    pub fn payload_in(&self, archived_is_dir: bool, checkout_is_dir: bool) -> (r: Option<Location>)
        ensures
            place::path_of(r) == self.payload_path(archived_is_dir, checkout_is_dir),
    {
        if archived_is_dir {
            Some(self.archived_payload())
        } else if checkout_is_dir {
            Some(self.checkout_payload())
        } else {
            None
        }
    }
}

/// The frontends of `all` that are on the machine, in the order they are
/// declared; `dirs[i]` is whether a directory stands where the frontend at place
/// `i` belongs.
pub open spec fn present(all: Seq<Frontend>, env: Environment, dirs: Seq<bool>) -> Seq<Frontend>
    decreases all.len(),
{
    if all.len() == 0 {
        seq![]
    } else {
        let rest = present(all.drop_last(), env, dirs);
        let i = all.len() - 1;
        if i < dirs.len() && dirs[i] && all.last().destination(env) is Some {
            rest.push(all.last())
        } else {
            rest
        }
    }
}

/// The frontends that references lead to.
pub open spec fn targets(refs: Seq<&'static Frontend>) -> Seq<Frontend> {
    Seq::new(refs.len(), |i: int| *refs[i])
}

/// Every frontend already present on this machine. `dirs` answers for each
/// declared frontend whether a directory stands where it belongs; a frontend
/// that it has no answer for is not present.
pub fn installed(project: &Project, env: &Environment, dirs: &Vec<bool>) -> (r: Vec<
    &'static Frontend,
>)
    ensures
        targets(r@) == present(project.frontends@, *env, dirs@),
{
    let all = project.frontends;
    let mut r: Vec<&'static Frontend> = Vec::new();
    let mut i: usize = 0;
    assert(targets(r@) =~= Seq::<Frontend>::empty());
    while i < all.len()
        invariant
            i <= all@.len(),
            all@ == project.frontends@,
            targets(r@) == present(all@.take(i as int), *env, dirs@),
        decreases all.len() - i,
    {
        let f: &'static Frontend = &all[i];
        let ghost before = r@;
        assert(all@.take(i + 1).drop_last() =~= all@.take(i as int));
        if f.is_installed(env, i < dirs.len() && dirs[i]) {
            r.push(f);
            assert(targets(r@) =~= targets(before).push(*f));
        }
        i = i + 1;
    }
    assert(all@.take(all@.len() as int) =~= all@);
    r
}

} // verus!
