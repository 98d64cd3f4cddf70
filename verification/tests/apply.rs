//! Applying a release to an install directory held in memory.

use std::collections::{BTreeMap, BTreeSet};

use selvedge::apply::{
    aside_name, lock_name, staging_name, Action, Job, Mode, Reply, Step, RUNNABLE_MODE,
};
use selvedge::frontend::find;
use selvedge::place::{Environment, Variable};
use selvedge::release::{ArchiveKind, Os, ReleaseAsset};
use selvedge::update::{apply, applied_status, install_frontends, Applied, FrontendOutcome};
use selvedge::{Frontend, Project, Restart, VersionSource};

const SAMPLE: Project = Project {
    binaries: &["samplegauge", "samplegauge-tui"],
    repo: "Arzaroth/SampleGauge",
    repo_env: "SAMPLEGAUGE_REPO",
    version: "1.2.3",
    frontends: SAMPLE_FRONTENDS,
    aliases: &["samplegauge-ctl", "samplegauge-watch"],
    legacy: &["samplegauge-update"],
    msi_marker_key: Some(r"HKCU\Software\SampleGauge"),
};

const SAMPLE_FRONTENDS: &[Frontend] = &[
    Frontend {
        id: "plasma",
        label: "KDE Plasma applet",
        payload: "plasma/org.samplegauge.plasmoid",
        artifact: "org.samplegauge.plasmoid",
        version_source: VersionSource::PlasmaMetadata,
        gsettings_schemas: false,
        compiled: false,
        restart: Restart::Cheap("kquitapp6 plasmashell && kstart plasmashell"),
    },
    Frontend {
        id: "gnome",
        label: "GNOME Shell extension",
        payload: "gnome/samplegauge@arzaroth.github.io",
        artifact: "samplegauge@arzaroth.github.io",
        version_source: VersionSource::GnomeMetadata,
        gsettings_schemas: true,
        compiled: true,
        restart: Restart::Session("log out and back in"),
    },
    Frontend {
        id: "omarchy",
        label: "Omarchy bar widget",
        payload: "omarchy/arzaroth.samplegauge",
        artifact: "arzaroth.samplegauge",
        version_source: VersionSource::ManifestVersion,
        gsettings_schemas: false,
        compiled: false,
        restart: Restart::Cheap("omarchy-shell -q shell rescanPlugins"),
    },
];

const USER: Environment = Environment {
    home: Variable::Filled,
    data_home: Variable::Unset,
    config_home: Variable::Unset,
    cache_home: Variable::Unset,
};

fn asset() -> ReleaseAsset {
    ReleaseAsset {
        name: "samplegauge-linux-x86_64.tar.gz".to_string(),
        download_url: "https://example.invalid/1".to_string(),
    }
}

const NOW: i64 = 1_700_000_000_000;

/// A machine: what is installed, what the archive on offer holds, and what goes
/// wrong.
#[derive(Default, Clone)]
struct Machine {
    locks: BTreeSet<String>,
    installed: BTreeMap<&'static str, &'static str>,
    archive: BTreeMap<&'static str, &'static str>,
    payloads: BTreeSet<&'static str>,
    staged: Option<BTreeMap<&'static str, &'static str>>,
    present: Vec<bool>,
    runnable: BTreeSet<&'static str>,
    refreshed: u32,
    downloads: u32,
    kind: Option<ArchiveKind>,
    recorded: bool,
    /// The frontends that are installed, with the release they are of.
    frontends: BTreeMap<&'static str, &'static str>,
    /// Every install that was tried, in order.
    tried: Vec<&'static str>,
    /// Frontends whose install fails.
    broken: BTreeSet<&'static str>,
    /// The step that fails, by the name of its action.
    fails: &'static str,
}

fn failed() -> Reply {
    Reply::Failed {
        place: "there".to_string(),
        cause: "denied".to_string(),
    }
}

fn yes(b: bool) -> Reply {
    if b {
        Reply::Done
    } else {
        Reply::Failed {
            place: String::new(),
            cause: String::new(),
        }
    }
}

impl Machine {
    fn act(&mut self, lock: &str, action: Action) -> Reply {
        let name = format!("{action:?}");
        if !self.fails.is_empty() && name.starts_with(self.fails) {
            return failed();
        }
        match action {
            Action::Lock => {
                if self.locks.insert(lock.to_string()) {
                    Reply::Done
                } else {
                    Reply::Busy
                }
            }
            Action::ClearStaging => {
                self.staged = None;
                Reply::Done
            }
            Action::MakeStaging => {
                self.staged = Some(BTreeMap::new());
                Reply::Done
            }
            Action::ListFrontends => Reply::Present(self.present.clone()),
            Action::CreateArchive(name) => {
                assert_eq!(name, asset().name);
                Reply::Done
            }
            Action::Download(what) => {
                assert_eq!(what, asset());
                self.downloads += 1;
                Reply::Done
            }
            Action::Extract(name, kind) => {
                assert_eq!(name, asset().name);
                self.kind = Some(kind);
                self.staged = Some(self.archive.clone());
                Reply::Done
            }
            Action::LookFor(binary) => {
                yes(self.staged.as_ref().unwrap().contains_key(binary))
            }
            Action::Replace(binary) => {
                let new = self.staged.as_mut().unwrap().remove(binary).unwrap();
                self.installed.insert(binary, new);
                Reply::Done
            }
            Action::MakeRunnable(binary) => {
                self.runnable.insert(binary);
                Reply::Done
            }
            Action::RefreshAliases => {
                self.refreshed += 1;
                Reply::Done
            }
            Action::LookForPayload(f) => yes(self.payloads.contains(f.id)),
            Action::Install(f) => {
                self.tried.push(f.id);
                if self.broken.contains(f.id) {
                    failed()
                } else {
                    self.frontends.insert(f.id, "new");
                    Reply::Installed(Some("1.3.0".to_string()))
                }
            }
            Action::Record(status) => {
                assert_eq!(status, applied_status("1.3.0", NOW));
                self.recorded = true;
                Reply::Done
            }
            Action::Stop => unreachable!(),
        }
    }

    fn run(&mut self, mut job: Job) -> Result<Applied, String> {
        let lock = lock_name(&job.project);
        let held = self.locks.contains(&lock);
        loop {
            match job.action(NOW) {
                Action::Stop => break,
                action => {
                    let reply = self.act(&lock, action);
                    assert!(job.clone().finish().is_none());
                    job.answer(reply);
                }
            }
        }
        if !held {
            self.locks.remove(&lock);
        }
        job.finish().unwrap()
    }

    fn update(&mut self) -> Result<Applied, String> {
        self.run(apply(&SAMPLE, Os::Unix, &USER, "1.3.0", asset()))
    }
}

fn machine() -> Machine {
    Machine {
        installed: [("samplegauge", "old"), ("samplegauge-tui", "old")].into(),
        archive: [("samplegauge", "new"), ("samplegauge-tui", "new")].into(),
        payloads: ["plasma", "gnome", "omarchy"].into(),
        present: vec![true, true, false],
        frontends: [("plasma", "old"), ("gnome", "old")].into(),
        ..Machine::default()
    }
}

fn outcome(id: &'static str, error: Option<&str>) -> FrontendOutcome {
    let f = find(&SAMPLE, id).unwrap();
    FrontendOutcome {
        id,
        label: f.label,
        version: match error {
            None => Some("1.3.0".to_string()),
            Some(_) => None,
        },
        restart_hint: f.restart.hint(),
        needs_session_restart: f.restart.needs_session_restart(),
        error: error.map(|e| e.to_string()),
    }
}

#[test]
fn an_update_replaces_every_binary_and_refreshes_what_is_installed() {
    let mut m = machine();
    let applied = m.update().unwrap();
    assert_eq!(m.installed["samplegauge"], "new");
    assert_eq!(m.installed["samplegauge-tui"], "new");
    assert_eq!(m.runnable.len(), 2);
    assert_eq!(RUNNABLE_MODE, 0o755);
    assert_eq!(m.refreshed, 1);
    assert_eq!(m.kind, Some(ArchiveKind::TarGz));
    assert!(m.recorded);
    assert!(m.staged.is_none());
    assert_eq!(
        applied,
        Applied {
            version: "1.3.0".to_string(),
            frontends: vec![outcome("plasma", None), outcome("gnome", None)],
            installer_launched: false,
        }
    );
    assert!(!applied.frontends[0].needs_session_restart);
    assert!(applied.frontends[1].needs_session_restart);
}

#[test]
fn binary_and_frontends_are_never_a_release_apart() {
    let mut m = machine();
    m.update().unwrap();
    assert!(m.installed.values().all(|release| *release == "new"));
    assert!(m.frontends.values().all(|release| *release == "new"));
    assert_eq!(m.tried, ["plasma", "gnome"]);

    // One that cannot be installed stays what it was, and says so.
    let mut m = machine();
    m.broken.insert("plasma");
    let applied = m.update().unwrap();
    assert_eq!(m.frontends, [("plasma", "old"), ("gnome", "new")].into());
    assert_eq!(m.tried, ["plasma", "gnome"]);
    assert!(applied.frontends[0].error.is_some());

    // A failure touches none of them.
    let mut m = machine();
    m.fails = "Extract";
    assert!(m.update().is_err());
    assert_eq!(m.frontends, machine().frontends);
    assert!(m.tried.is_empty());
}

#[test]
fn an_archive_from_before_a_binary_existed_replaces_the_others() {
    let mut m = machine();
    m.archive.remove("samplegauge-tui");
    m.update().unwrap();
    assert_eq!(m.installed["samplegauge"], "new");
    assert_eq!(m.installed["samplegauge-tui"], "old");
}

#[test]
fn an_archive_without_the_primary_binary_is_refused_whole() {
    let mut m = machine();
    m.archive.remove("samplegauge");
    assert_eq!(
        m.update(),
        Err("release archive has no samplegauge - refusing a partial update".to_string())
    );
    assert_eq!(m.installed, machine().installed);
    assert!(!m.recorded);
    assert!(m.staged.is_none());
}

#[test]
fn one_frontend_that_cannot_be_installed_does_not_skip_the_rest() {
    let mut m = machine();
    m.broken.insert("plasma");
    let applied = m.update().unwrap();
    assert_eq!(
        applied.frontends,
        [outcome("plasma", Some("denied")), outcome("gnome", None)]
    );
    assert!(m.recorded);
}

#[test]
fn an_archive_without_payloads_is_not_an_error_of_an_update() {
    let mut m = machine();
    m.payloads.clear();
    assert!(m.update().unwrap().frontends.is_empty());
    // One payload is enough for every frontend to be tried.
    m.payloads.insert("gnome");
    assert_eq!(m.update().unwrap().frontends.len(), 2);
}

#[test]
fn each_failing_update_says_why_and_cleans_up() {
    let cases = [
        ("Lock", "cannot open the update lock there: denied"),
        ("MakeStaging", "cannot create staging dir there: denied"),
        ("CreateArchive", "cannot create there: denied"),
        ("Download", "download failed: denied"),
        ("Extract", "extract failed: denied"),
        ("Replace", "failed to replace there: denied"),
    ];
    for (fails, error) in cases {
        let mut m = machine();
        m.fails = fails;
        assert_eq!(m.update(), Err(error.to_string()));
        assert_eq!(m.installed, machine().installed);
        assert!(m.staged.is_none());
        assert!(!m.recorded);
        assert_eq!(m.refreshed, 0);
    }
    for harmless in ["ClearStaging", "MakeRunnable", "RefreshAliases", "Record"] {
        let mut m = machine();
        m.fails = harmless;
        assert!(m.update().is_ok(), "{harmless}");
    }
    let mut job = apply(&SAMPLE, Os::Unix, &USER, "1.3.0", asset());
    job.answer(Reply::Refused {
        cause: "no locks".to_string(),
    });
    assert_eq!(
        job.finish(),
        Some(Err(
            "failed to acquire the update lock: no locks".to_string()
        ))
    );
}

#[test]
fn the_lock_is_exclusive_and_released_on_the_way_out() {
    let mut m = machine();
    m.locks.insert(lock_name(&SAMPLE));
    assert_eq!(
        m.update(),
        Err("an update is already running".to_string()),
        "two updates must not run"
    );
    assert_eq!(m.installed, machine().installed);
    assert_eq!(m.downloads, 0);
    m.locks.clear();
    m.update().expect("released");
    assert!(m.locks.is_empty());
    m.update().expect("released on the way out");
}

#[test]
fn two_projects_sharing_an_install_directory_lock_separately() {
    // ~/.local/bin holds both of them, and one updating must not refuse
    // the other.
    let other = Project {
        binaries: &["othergauge"],
        ..SAMPLE
    };
    assert_eq!(lock_name(&SAMPLE), ".samplegauge-update.lock");
    assert_eq!(lock_name(&other), ".othergauge-update.lock");
    let mut m = machine();
    m.archive.insert("othergauge", "new");
    m.locks.insert(lock_name(&SAMPLE));
    m.run(apply(&other, Os::Unix, &USER, "1.3.0", asset()))
        .expect("a different project is not this one");
}

#[test]
fn the_staging_directories_are_hidden_and_apart() {
    assert_eq!(
        staging_name(&SAMPLE, Mode::Update),
        ".samplegauge-update.tmp"
    );
    assert_eq!(
        staging_name(&SAMPLE, Mode::Frontends),
        ".samplegauge-frontend.tmp"
    );
    assert_eq!(aside_name("samplegauge"), "samplegauge.old");
}

fn targets(ids: &[&str]) -> Vec<&'static Frontend> {
    ids.iter().map(|id| find(&SAMPLE, id).unwrap()).collect()
}

#[test]
fn frontends_are_installed_whether_or_not_they_were() {
    let mut m = machine();
    let job = install_frontends(
        &SAMPLE,
        Os::Unix,
        &USER,
        targets(&["omarchy", "gnome", "plasma"]),
        "v1.2.3",
        asset(),
    );
    let applied = m.run(job).unwrap();
    assert_eq!(
        applied.frontends,
        [
            outcome("omarchy", None),
            outcome("gnome", None),
            outcome("plasma", None)
        ]
    );
    // One download for the whole set, and nothing else is touched.
    assert_eq!(m.downloads, 1);
    assert_eq!(m.installed, machine().installed);
    assert_eq!(m.refreshed, 0);
    assert!(!m.recorded);
    assert!(m.staged.is_none());
}

#[test]
fn a_release_without_payloads_cannot_install_frontends() {
    for ids in [&["omarchy", "gnome"][..], &[][..]] {
        let mut m = machine();
        m.payloads.clear();
        let job = install_frontends(&SAMPLE, Os::Unix, &USER, targets(ids), "v1.2.3", asset());
        assert_eq!(
            m.run(job),
            Err("release v1.2.3 ships no frontend payloads".to_string())
        );
        assert!(m.staged.is_none());
    }
}

#[test]
fn windows_has_no_bits_to_set() {
    let mut m = machine();
    m.run(apply(&SAMPLE, Os::Windows, &USER, "1.3.0", asset())).unwrap();
    assert_eq!(m.installed["samplegauge-tui"], "new");
    assert!(m.runnable.is_empty());
    assert_eq!(m.kind, Some(ArchiveKind::Zip));
}

#[test]
fn a_job_that_is_over_stays_over() {
    let mut job = apply(&SAMPLE, Os::Unix, &USER, "1.3.0", asset());
    job.answer(Reply::Busy);
    assert_eq!(job.step, Step::Finished { ok: false });
    job.answer(Reply::Done);
    assert_eq!(job.step, Step::Finished { ok: false });
}
