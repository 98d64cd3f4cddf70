//! Frontends, and installing them on a disk held in memory.

use std::collections::BTreeMap;

use selvedge::frontend::{
    find, find_exact, held_version, recorded_version, ARCHIVE_ROOT, BUILD_ROOT, SCHEMAS_BLOB,
    SCHEMAS_DIR, SCHEMA_COMPILER,
};
use selvedge::install::{retired_name, staged_name, Action, Origin, Reply, Slot, Step, Target};
use selvedge::place::{Base, Environment, Location, Variable};
use selvedge::{Frontend, Project, Restart, VersionSource};

const SAMPLE: Project = Project {
    binaries: &["samplegauge", "samplegauge-tui"],
    repo: "Arzaroth/SampleGauge",
    repo_env: "SAMPLEGAUGE_REPO",
    version: "1.2.3",
    frontends: SAMPLE_FRONTENDS,
    aliases: &["samplegauge-ctl", "samplegauge-watch"],
    legacy: &["samplegauge-update"],
    msi_marker_key: Some(r"HKCU\Software\SampleGauge"),
};

const SAMPLE_FRONTENDS: &[Frontend] = &[
    Frontend {
        id: "plasma",
        label: "KDE Plasma applet",
        payload: "plasma/org.samplegauge.plasmoid",
        artifact: "org.samplegauge.plasmoid",
        version_source: VersionSource::PlasmaMetadata,
        gsettings_schemas: false,
        compiled: false,
        restart: Restart::Cheap("kquitapp6 plasmashell && kstart plasmashell"),
    },
    Frontend {
        id: "gnome",
        label: "GNOME Shell extension",
        payload: "gnome/samplegauge@arzaroth.github.io",
        artifact: "samplegauge@arzaroth.github.io",
        version_source: VersionSource::GnomeMetadata,
        gsettings_schemas: true,
        compiled: true,
        restart: Restart::Session("log out and back in"),
    },
    Frontend {
        id: "omarchy",
        label: "Omarchy bar widget",
        payload: "omarchy/arzaroth.samplegauge",
        artifact: "arzaroth.samplegauge",
        version_source: VersionSource::ManifestVersion,
        gsettings_schemas: false,
        compiled: false,
        restart: Restart::Cheap("omarchy-shell -q shell rescanPlugins"),
    },
];

const USER: Environment = Environment {
    home: Variable::Filled,
    data_home: Variable::Unset,
    config_home: Variable::Unset,
    cache_home: Variable::Unset,
};

const NOBODY: Environment = Environment {
    home: Variable::Unset,
    data_home: Variable::Unset,
    config_home: Variable::Unset,
    cache_home: Variable::Unset,
};

fn sample(id: &str) -> &'static Frontend {
    find(&SAMPLE, id).unwrap()
}

fn at(base: Base, parts: &[&'static str]) -> Location {
    Location {
        base,
        parts: parts.to_vec(),
    }
}

#[test]
fn ids_resolve_case_insensitively() {
    assert_eq!(find(&SAMPLE, "plasma").unwrap().id, "plasma");
    assert_eq!(find(&SAMPLE, "  GNOME ").unwrap().id, "gnome");
    assert!(find(&SAMPLE, "aqua").is_none());
}

#[test]
fn every_spelling_of_an_id_names_the_same_frontend() {
    for id in ["gnome", "Gnome", "gNOME", "GNOME"] {
        for space in ["", " ", "\t\n", "\u{2003}"] {
            let found = find(&SAMPLE, &format!("{space}{id}{space}")).unwrap();
            assert_eq!(found.id, "gnome");
        }
    }
    assert!(find(&SAMPLE, "g nome").is_none());
}

#[test]
fn an_exact_id_is_not_bent() {
    assert_eq!(find_exact(&SAMPLE, "gnome").unwrap().id, "gnome");
    assert!(find_exact(&SAMPLE, "GNOME").is_none());
    assert!(find_exact(&SAMPLE, "gnome ").is_none());
}

const TWINS: &[Frontend] = &[
    Frontend {
        label: "first",
        ..SAMPLE_FRONTENDS[0]
    },
    Frontend {
        label: "second",
        ..SAMPLE_FRONTENDS[0]
    },
];

#[test]
fn the_first_of_two_frontends_with_one_id_answers() {
    let project = Project {
        frontends: TWINS,
        ..SAMPLE
    };
    assert_eq!(find(&project, "Plasma").unwrap().label, "first");
}

#[test]
fn every_frontend_resolves_a_destination() {
    // A frontend whose id is not handled in dest_dir() would silently be
    // uninstallable, and an update would skip it without a word.
    for f in SAMPLE.frontends {
        assert!(f.dest_dir(&USER).is_some(), "{} has no destination", f.id);
    }
}

#[test]
fn each_desktop_is_installed_where_it_looks() {
    assert_eq!(
        sample("plasma").dest_dir(&USER),
        Some(at(
            Base::Home,
            &[".local/share", "plasma/plasmoids", "org.samplegauge.plasmoid"]
        ))
    );
    assert_eq!(
        sample("gnome").dest_dir(&USER),
        Some(at(
            Base::Home,
            &[
                ".local/share",
                "gnome-shell/extensions",
                "samplegauge@arzaroth.github.io"
            ]
        ))
    );
    assert_eq!(
        sample("omarchy").dest_dir(&USER),
        Some(at(
            Base::Home,
            &[".config", "omarchy/plugins", "arzaroth.samplegauge"]
        ))
    );
    let xdg = Environment {
        data_home: Variable::Filled,
        config_home: Variable::Filled,
        ..NOBODY
    };
    assert_eq!(sample("plasma").dest_dir(&xdg).unwrap().base, Base::DataHome);
    assert_eq!(
        sample("omarchy").dest_dir(&xdg).unwrap().base,
        Base::ConfigHome
    );
    // An empty value is not a directory.
    let empty = Environment {
        data_home: Variable::Empty,
        ..USER
    };
    assert_eq!(sample("plasma").dest_dir(&empty).unwrap().base, Base::Home);
    assert!(sample("plasma").dest_dir(&NOBODY).is_none());
    let unknown = Frontend {
        id: "aqua",
        ..SAMPLE_FRONTENDS[0]
    };
    assert!(unknown.dest_dir(&USER).is_none());
    assert_eq!(
        unknown.install_from(&USER),
        Err("cannot resolve an install directory for aqua".to_string())
    );
    assert_eq!(
        sample("plasma").install_from(&USER).ok(),
        sample("plasma").dest_dir(&USER)
    );
}

#[test]
fn a_frontend_is_installed_where_its_directory_is() {
    let plasma = sample("plasma");
    assert!(plasma.is_installed(&USER, true));
    assert!(!plasma.is_installed(&USER, false));
    assert!(!plasma.is_installed(&NOBODY, true));
}

#[test]
fn version_is_read_from_each_metadata_shape() {
    assert_eq!(
        sample("plasma")
            .version_in(Some(r#"{"KPlugin":{"Version":"0.5.0"}}"#))
            .as_deref(),
        Some("0.5.0")
    );
    assert_eq!(
        sample("gnome")
            .version_in(Some(r#"{"version-name":"v0.5.0"}"#))
            .as_deref(),
        Some("0.5.0"),
        "a leading v must not read as a different version"
    );
    assert_eq!(
        sample("omarchy")
            .version_in(Some(r#"{"version":"0.5.0"}"#))
            .as_deref(),
        Some("0.5.0")
    );
    assert_eq!(
        sample("plasma").version_source.file_and_pointer(),
        ("metadata.json".to_string(), "/KPlugin/Version")
    );
    assert_eq!(
        sample("gnome").version_source.file_and_pointer(),
        ("metadata.json".to_string(), "/version-name")
    );
    let (file, pointer) = sample("omarchy").version_source.file_and_pointer();
    assert_eq!(file.strip_suffix(".json"), Some("manifest"));
    assert_eq!(pointer, "/version");
}

#[test]
fn a_version_that_is_no_string_is_forgiven() {
    let omarchy = sample("omarchy");
    let version = |raw: &str| omarchy.version_in(Some(raw));
    assert_eq!(version(r#"{"version":6}"#).as_deref(), Some("6"));
    assert_eq!(version(r#"{"version":1.5}"#).as_deref(), Some("1.5"));
    assert_eq!(version(r#"{"version":"6"}"#).as_deref(), Some("6"));
    assert_eq!(version(r#"{"version":null}"#).as_deref(), Some("null"));
    assert_eq!(version(r#"{"version":[1]}"#).as_deref(), Some("[1]"));

    assert_eq!(held_version(Some("v1"), Some("\"v1\"")).as_deref(), Some("1"));
    assert_eq!(held_version(None, Some("6")).as_deref(), Some("6"));
    assert_eq!(held_version(None, None), None);
    // An empty string is a string, and names no version.
    assert_eq!(held_version(Some(" "), Some("6")), None);
}

#[test]
fn the_schemas_are_where_the_shell_looks_for_them() {
    assert_eq!(
        (SCHEMAS_DIR, SCHEMAS_BLOB, SCHEMA_COMPILER),
        (
            "schemas",
            "schemas/gschemas.compiled",
            "glib-compile-schemas"
        )
    );
}

#[test]
fn metadata_that_names_no_version_has_none() {
    let omarchy = sample("omarchy");
    assert_eq!(omarchy.version_in(None), None);
    assert_eq!(omarchy.version_in(Some("not json")), None);
    assert_eq!(omarchy.version_in(Some(r#"{"other":"1"}"#)), None);
    assert_eq!(omarchy.version_in(Some(r#"{"version":""}"#)), None);
    assert_eq!(
        omarchy.installed_version(&USER, Some(r#"{"version":"1.0"}"#)),
        Some("1.0".to_string())
    );
    assert_eq!(
        omarchy.installed_version(&NOBODY, Some(r#"{"version":"1.0"}"#)),
        None
    );
    assert_eq!(recorded_version(Some(" vv1 ")), Some("1".to_string()));
    assert_eq!(recorded_version(None), None);
}

#[test]
fn payload_is_found_in_an_archive_or_a_checkout() {
    let plasma = sample("plasma");
    assert_eq!(
        plasma.payload_in(true, false),
        Some(at(Base::Source, &[ARCHIVE_ROOT, plasma.payload]))
    );
    assert_eq!(
        plasma.payload_in(false, true),
        Some(at(Base::Source, &[plasma.payload]))
    );
    // The archive is asked first.
    assert_eq!(
        plasma.payload_in(true, true),
        Some(at(Base::Source, &[ARCHIVE_ROOT, plasma.payload]))
    );
    assert!(plasma.payload_in(false, false).is_none());
}

#[test]
fn a_compiled_payload_is_taken_from_the_build() {
    let gnome = sample("gnome");
    assert_eq!(
        gnome.checkout_payload(),
        at(Base::Source, &[BUILD_ROOT, ARCHIVE_ROOT, gnome.payload])
    );
    assert_eq!(
        gnome.archived_payload(),
        at(Base::Source, &[ARCHIVE_ROOT, gnome.payload])
    );
}

#[test]
fn archive_layout_resolves_every_frontend() {
    for f in SAMPLE.frontends {
        let mut disk = Disk::default();
        disk.add(&format!("archive/{ARCHIVE_ROOT}/{}/file", f.payload), "x");
        let there = disk.is_dir(&format!("archive/{}", f.archived_payload().parts.join("/")));
        assert!(
            f.payload_in(there, false).is_some(),
            "{} does not resolve in the archive layout the release builds",
            f.id
        );
    }
}

#[test]
fn a_restart_says_what_to_run() {
    let cheap = sample("plasma").restart;
    assert_eq!(cheap.hint(), "kquitapp6 plasmashell && kstart plasmashell");
    assert!(!cheap.needs_session_restart());
    let session = sample("gnome").restart;
    assert_eq!(session.hint(), "log out and back in");
    assert!(session.needs_session_restart());
}

/// Files by path. A directory is there where a file below it is.
#[derive(Default, Clone, Debug, PartialEq)]
struct Disk {
    files: BTreeMap<String, String>,
    /// What `glib-compile-schemas` does, if it is there at all.
    compiler: Option<Result<(), String>>,
}

impl Disk {
    fn add(&mut self, path: &str, text: &str) {
        self.files.insert(path.to_string(), text.to_string());
    }

    fn below(&self, dir: &str) -> Vec<(String, String)> {
        let dir = format!("{dir}/");
        self.files
            .iter()
            .filter_map(|(p, t)| p.strip_prefix(&dir).map(|r| (r.to_string(), t.clone())))
            .collect()
    }

    fn is_dir(&self, dir: &str) -> bool {
        !self.below(dir).is_empty()
    }

    fn is_there(&self, path: &str) -> bool {
        self.files.contains_key(path) || self.is_dir(path)
    }

    fn remove_dir(&mut self, dir: &str) {
        for (rest, _) in self.below(dir) {
            self.files.remove(&format!("{dir}/{rest}"));
        }
    }

    fn rename(&mut self, from: &str, to: &str) -> Reply {
        if !self.is_dir(from) {
            return Reply::Failed("No such file or directory".to_string());
        }
        if self.files.contains_key(to) {
            return Reply::Failed("Not a directory".to_string());
        }
        if self.is_dir(to) {
            return Reply::Failed("Directory not empty".to_string());
        }
        for (rest, text) in self.below(from) {
            self.files.insert(format!("{to}/{rest}"), text);
        }
        self.remove_dir(from);
        Reply::Done
    }
}

fn yes(b: bool) -> Reply {
    if b {
        Reply::Done
    } else {
        Reply::Failed(String::new())
    }
}

/// Install `f` from `source` into `parent`, under its artifact's name.
fn install(disk: &mut Disk, f: &Frontend, source: &str, parent: &str) -> Result<(), String> {
    let dest = format!("{parent}/{}", f.artifact);
    let staged = format!("{parent}/{}", staged_name(f.artifact));
    let retired = format!("{parent}/{}", retired_name(f.artifact));
    let mut install = f.install_into(Target {
        source_root: source.to_string(),
        parent: Some(parent.to_string()),
        dest: dest.clone(),
        name: Some(f.artifact.to_string()),
        staged: staged.clone(),
        schemas: format!("{staged}/schemas"),
    });
    let path = |slot: Slot| match slot {
        Slot::Staged => staged.clone(),
        Slot::Retired => retired.clone(),
        Slot::Dest => dest.clone(),
    };
    let payload = |origin: Origin| {
        let found = match origin {
            Origin::Archived => f.archived_payload(),
            Origin::Checkout => f.checkout_payload(),
        };
        format!("{source}/{}", found.parts.join("/"))
    };
    loop {
        let reply = match install.action() {
            Action::LookFor(origin) => yes(disk.is_dir(&payload(origin))),
            Action::MakeParent => Reply::Done,
            Action::Clear(slot) => {
                disk.remove_dir(&path(slot));
                Reply::Done
            }
            Action::Copy(origin) => {
                for (rest, text) in disk.below(&payload(origin)) {
                    disk.add(&format!("{staged}/{rest}"), &text);
                }
                Reply::Done
            }
            Action::LookForSchemas => yes(disk.is_dir(&format!("{staged}/schemas"))),
            Action::Compile => match disk.compiler.clone() {
                None => Reply::Failed("No such file or directory".to_string()),
                Some(Err(said)) => Reply::Refused(said),
                Some(Ok(())) => {
                    disk.add(&format!("{staged}/schemas/gschemas.compiled"), "blob");
                    Reply::Done
                }
            },
            Action::LookForOld => yes(disk.is_there(&dest)),
            Action::Rename(from, to) => disk.rename(&path(from), &path(to)),
            Action::Stop => return install.result().unwrap(),
        };
        assert!(install.result().is_none());
        install.answer(reply);
    }
}

#[test]
fn install_replaces_rather_than_merges() {
    let plasma = sample("plasma");
    let mut disk = Disk::default();
    let payload = format!("archive/{ARCHIVE_ROOT}/{}", plasma.payload);
    disk.add(&format!("{payload}/kept.qml"), "new");
    disk.add(
        &format!("{payload}/metadata.json"),
        r#"{"KPlugin":{"Version":"9.9.9"}}"#,
    );
    let dest = format!("plasmoids/{}", plasma.artifact);
    disk.add(&format!("{dest}/gone.qml"), "old");

    install(&mut disk, plasma, "archive", "plasmoids").unwrap();
    assert!(disk.is_there(&format!("{dest}/kept.qml")));
    assert!(
        !disk.is_there(&format!("{dest}/gone.qml")),
        "a file dropped upstream must not survive the install"
    );
    let metadata = disk.files[&format!("{dest}/metadata.json")].clone();
    assert_eq!(plasma.version_in(Some(&metadata)).as_deref(), Some("9.9.9"));
    assert!(
        !disk.is_there(&format!("plasmoids/.{}.tg-new", plasma.artifact)),
        "staging dir survived a successful install"
    );
    assert!(
        !disk.is_there("plasmoids/org.samplegauge.tg-new"),
        "staging must not truncate the dotted artifact name"
    );
}

/// The old install must survive a failed replacement.
#[test]
fn a_failed_replacement_leaves_the_old_install_where_it_was() {
    let plasma = sample("plasma");
    let mut disk = Disk::default();
    disk.add(&format!("src/{ARCHIVE_ROOT}/{}/new.txt", plasma.payload), "new");
    let dest = format!("installed/{}", plasma.artifact);
    disk.add(&format!("{dest}/old.txt"), "old");

    install(&mut disk, plasma, "src", "installed").expect("install");
    assert!(disk.is_there(&format!("{dest}/new.txt")));
    assert!(!disk.is_there(&format!("{dest}/old.txt")));
    let leftovers: Vec<String> = disk
        .below("installed")
        .into_iter()
        .map(|(p, _)| p)
        .filter(|p| p.starts_with('.'))
        .collect();
    assert!(leftovers.is_empty(), "staging left behind: {leftovers:?}");

    // Fail *after* staging, which is the half that matters: a file sitting
    // where the retired copy wants to go makes the move-aside fail, so the
    // old install is still at `dest` when the promotion rename runs - and
    // that rename fails too, because `dest` is a non-empty directory.
    disk.add(&format!("installed/.{}.tg-old", plasma.artifact), "x");
    assert_eq!(
        install(&mut disk, plasma, "src", "installed"),
        Err("cannot move KDE Plasma applet into place: Directory not empty".to_string())
    );
    assert!(
        disk.is_there(&format!("{dest}/new.txt")),
        "the working install has to still be there after a failure"
    );
    assert!(
        !disk.is_there(&format!("installed/.{}.tg-new", plasma.artifact)),
        "the staged copy has to be cleaned up on the way out"
    );
}

#[test]
fn a_failed_install_leaves_nothing_staged() {
    let plasma = sample("plasma");
    let mut disk = Disk::default();
    let before = disk.clone();
    assert_eq!(
        install(&mut disk, plasma, "empty", "plasmoids"),
        Err("KDE Plasma applet payload not found under empty".to_string())
    );
    assert_eq!(
        disk, before,
        "a failed install must not leave a staged directory behind"
    );
}

/// The payload ships the schema XML and nothing else, because the compiled
/// blob is built on the machine that runs it. An install that left it that
/// way produces an extension GNOME refuses to enable.
#[test]
fn a_gnome_install_compiles_its_schemas() {
    let gnome = sample("gnome");
    let mut disk = Disk::default();
    let payload = format!("archive/{ARCHIVE_ROOT}/{}", gnome.payload);
    disk.add(
        &format!("{payload}/metadata.json"),
        r#"{"uuid":"x","version-name":"1.2.3"}"#,
    );
    disk.add(
        &format!("{payload}/schemas/org.gnome.shell.extensions.sample.gschema.xml"),
        "<schemalist/>",
    );
    let dest = format!("extensions/{}", gnome.artifact);
    let blob = format!("{dest}/schemas/gschemas.compiled");

    // Nothing to compile with: refusing is the whole point, so the working
    // install a user already had is still there afterwards.
    assert_eq!(
        install(&mut disk, gnome, "archive", "extensions"),
        Err(
            "cannot run glib-compile-schemas, which GNOME Shell extension needs - install the \
             glib2 tools (Debian/Ubuntu: libglib2.0-bin): No such file or directory"
                .to_string()
        ),
        "an install that cannot compile must fail"
    );
    assert!(!disk.is_there(&dest), "and must not leave a broken copy behind");

    disk.compiler = Some(Err(" bad schema \n".to_string()));
    assert_eq!(
        install(&mut disk, gnome, "archive", "extensions"),
        Err(format!(
            "glib-compile-schemas failed on extensions/.{}.tg-new/schemas: bad schema",
            gnome.artifact
        ))
    );
    assert!(!disk.is_there("extensions"));

    disk.compiler = Some(Ok(()));
    install(&mut disk, gnome, "archive", "extensions").expect("install");
    assert!(
        gnome.schemas_ready_in(disk.is_there(&blob)),
        "the installed extension has no compiled schemas"
    );
    let metadata = disk.files[&format!("{dest}/metadata.json")].clone();
    assert_eq!(gnome.version_in(Some(&metadata)).as_deref(), Some("1.2.3"));
    assert!(!gnome.schemas_ready_in(false));
    assert!(gnome.schemas_ready(&USER, true));
    assert!(!gnome.schemas_ready(&USER, false));

    // A frontend with no schemas is ready wherever it is - the check must
    // not turn into a file the Plasma applet is now expected to grow.
    assert!(sample("plasma").schemas_ready_in(false));
}

#[test]
fn a_payload_without_its_schemas_is_refused() {
    let gnome = sample("gnome");
    let mut disk = Disk::default();
    disk.add(&format!("src/{ARCHIVE_ROOT}/{}/x.js", gnome.payload), "x");
    assert_eq!(
        install(&mut disk, gnome, "src", "extensions"),
        Err(format!(
            "GNOME Shell extension ships GSettings schemas but extensions/.{}.tg-new has none",
            gnome.artifact
        ))
    );
    assert!(!disk.is_there("extensions"));
}

fn somewhere() -> Target {
    Target {
        source_root: "src".to_string(),
        parent: Some("there".to_string()),
        dest: "there/here".to_string(),
        name: Some("here".to_string()),
        staged: "there/.here.tg-new".to_string(),
        schemas: "there/.here.tg-new/schemas".to_string(),
    }
}

#[test]
fn each_early_failure_says_what_it_was() {
    let plasma = sample("plasma");

    let mut parentless = plasma.install_into(somewhere());
    parentless.answer(Reply::Done);
    assert_eq!(parentless.action(), Action::MakeParent);
    parentless.answer(Reply::Failed("denied".to_string()));
    assert_eq!(
        parentless.result(),
        Some(Err("cannot create there: denied".to_string()))
    );

    let mut unnamed = plasma.install_into(Target {
        name: None,
        parent: None,
        dest: "/".to_string(),
        ..somewhere()
    });
    unnamed.answer(Reply::Done);
    assert_eq!(
        unnamed.result(),
        Some(Err("cannot name a staging dir for /".to_string()))
    );

    let mut uncopied = plasma.install_into(somewhere());
    uncopied.answer(Reply::Failed(String::new()));
    assert_eq!(uncopied.action(), Action::LookFor(Origin::Checkout));
    uncopied.answer(Reply::Done);
    uncopied.answer(Reply::Done);
    uncopied.answer(Reply::Failed("nothing was there".to_string()));
    assert_eq!(uncopied.action(), Action::Copy(Origin::Checkout));
    uncopied.answer(Reply::Failed("disk full".to_string()));
    assert_eq!(uncopied.action(), Action::Clear(Slot::Staged));
    uncopied.answer(Reply::Done);
    assert_eq!(
        uncopied.result(),
        Some(Err(
            "cannot stage KDE Plasma applet into there/.here.tg-new: disk full".to_string()
        ))
    );
}

#[test]
fn a_promotion_that_fails_brings_the_old_install_back() {
    let mut install = sample("plasma").install_into(somewhere());
    // Found, parent made, staged cleared, copied, retired cleared, old found,
    // old moved aside.
    for _ in 0..7 {
        install.answer(Reply::Done);
    }
    assert_eq!(install.step, Step::Promote { had_old: true });
    install.answer(Reply::Failed("busy".to_string()));
    assert_eq!(install.action(), Action::Rename(Slot::Retired, Slot::Dest));
    install.answer(Reply::Done);
    assert_eq!(install.action(), Action::Clear(Slot::Staged));
    install.answer(Reply::Done);
    assert_eq!(
        install.result(),
        Some(Err(
            "cannot move KDE Plasma applet into place: busy".to_string()
        ))
    );
}
