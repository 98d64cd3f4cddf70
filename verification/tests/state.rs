//! The cached status, announcing an update from it, and writing it.

use selvedge::place::{Base, Environment, Location, Variable};
use selvedge::state::{
    announce_if_new, cache_dir, claim_announcement, now_ms, release_announcement,
    update_cache_file, Announcing, LOCK_EXTENSION,
};
use selvedge::update::applied_status;
use selvedge::write::{staged_extension, write_update_status, Step, Target};
use selvedge::{Project, UpdateStatus};

const SAMPLE: Project = Project {
    binaries: &["samplegauge", "samplegauge-tui"],
    repo: "Arzaroth/SampleGauge",
    repo_env: "SAMPLEGAUGE_REPO",
    version: "1.2.3",
    frontends: &[],
    aliases: &["samplegauge-ctl", "samplegauge-watch"],
    legacy: &["samplegauge-update"],
    msi_marker_key: Some(r"HKCU\Software\SampleGauge"),
};

/// Announce from a cache held in memory, as a caller would from one on disk.
fn announce<F>(cache: &mut Option<UpdateStatus>, mut draw: F) -> bool
where
    F: FnMut(&mut Option<UpdateStatus>, &str, &str) -> bool,
{
    let mut announcing = announce_if_new();
    loop {
        match announcing.clone() {
            Announcing::Claim | Announcing::Release { .. } => {
                if let Some(status) = announcing.cache_read(cache.clone()) {
                    *cache = Some(status);
                    announcing.written(Ok(()));
                }
            }
            Announcing::WriteClaim { .. } | Announcing::WriteRelease => unreachable!(),
            Announcing::Announce { latest, current } => {
                let happened = draw(cache, &latest, &current);
                announcing.drawn(happened);
            }
            Announcing::Over { .. } | Announcing::Failed { .. } => {
                return announcing.result().unwrap().unwrap()
            }
        }
    }
}

fn offered() -> UpdateStatus {
    UpdateStatus {
        current: "1.0.0".into(),
        latest: Some("1.1.0".into()),
        available: true,
        ..Default::default()
    }
}

#[test]
fn a_version_is_announced_once_and_the_guard_is_written_back() {
    let mut cache = Some(offered());
    let mut seen: Vec<String> = Vec::new();
    assert!(announce(&mut cache, |_, latest, current| {
        seen.push(format!("{current}->{latest}"));
        true
    }));
    assert_eq!(seen, ["1.0.0->1.1.0"]);
    assert_eq!(cache.clone().unwrap().notified.as_deref(), Some("1.1.0"));

    // Second time round there is nothing new to say.
    assert!(!announce(&mut cache, |_, _, _| panic!("announced twice")));
}

/// The whole reason this is not a caller's write-back: it must not carry a
/// `current` from before an update that landed meanwhile.
#[test]
fn announcing_leaves_every_other_field_as_it_found_them() {
    let mut cache = Some(UpdateStatus {
        checked_ms: 1_700_000_000_000,
        ..offered()
    });

    // An update finishes while the announcement is being drawn.
    assert!(announce(&mut cache, |cache, _, _| {
        let mut after = cache.clone().unwrap();
        after.current = "1.1.0".into();
        after.available = false;
        *cache = Some(after);
        true
    }));

    let end = cache.unwrap();
    assert_eq!(end.current, "1.1.0", "the update was undone on paper");
    assert!(!end.available, "the panel is still offering an update");
    assert_eq!(end.checked_ms, 1_700_000_000_000);
    assert_eq!(end.notified.as_deref(), Some("1.1.0"));
}

/// An announcement that did not happen is not an announcement.
#[test]
fn a_refused_announcement_is_offered_again() {
    let mut cache = Some(offered());
    assert!(!announce(&mut cache, |_, _, _| false));
    assert_eq!(cache.clone().unwrap().notified, None);
    assert!(announce(&mut cache, |_, _, _| true));
}

#[test]
fn nothing_is_announced_when_there_is_no_update() {
    let mut cache: Option<UpdateStatus> = None;
    assert!(!announce(&mut cache, |_, _, _| panic!("no cache at all")));
    assert_eq!(cache, None);

    let current = UpdateStatus {
        current: "1.1.0".into(),
        latest: Some("1.1.0".into()),
        available: false,
        ..Default::default()
    };
    let mut cache = Some(current.clone());
    assert!(!announce(&mut cache, |_, _, _| panic!("already current")));
    assert_eq!(cache, Some(current));

    // Available, but of nothing.
    let mut cache = Some(UpdateStatus {
        latest: None,
        ..offered()
    });
    assert!(!announce(&mut cache, |_, _, _| panic!("nothing to name")));
}

/// A check that moved on to a newer version owns the guard now, and a
/// refused announcement for the older one must not clear it.
#[test]
fn a_refusal_does_not_clear_a_guard_that_moved_on() {
    let mut cache = Some(offered());
    assert!(!announce(&mut cache, |cache, _, _| {
        // A check lands mid-announcement and finds something newer.
        let mut moved = cache.clone().unwrap();
        moved.latest = Some("1.2.0".into());
        moved.notified = Some("1.2.0".into());
        *cache = Some(moved);
        false
    }));
    assert_eq!(
        cache.unwrap().notified.as_deref(),
        Some("1.2.0"),
        "a refusal for 1.1.0 cleared the guard for 1.2.0"
    );
}

#[test]
fn a_claim_says_what_is_announced_and_what_is_written() {
    let claim = claim_announcement(Some(offered())).unwrap();
    assert_eq!(claim.latest, "1.1.0");
    assert_eq!(claim.current, "1.0.0");
    assert_eq!(
        claim.status,
        UpdateStatus {
            notified: Some("1.1.0".into()),
            ..offered()
        }
    );
    assert!(claim_announcement(Some(claim.status.clone())).is_none());
    assert_eq!(
        release_announcement(Some(claim.status.clone()), "1.1.0"),
        Some(offered())
    );
    assert_eq!(release_announcement(Some(claim.status), "1.2.0"), None);
    assert_eq!(release_announcement(None, "1.1.0"), None);
}

#[test]
fn a_claim_that_cannot_be_written_is_an_error_and_no_announcement() {
    let mut announcing = announce_if_new();
    assert!(announcing.cache_read(Some(offered())).is_some());
    assert_eq!(announcing.result(), None);
    announcing.written(Err("disk full".into()));
    assert_eq!(announcing.result(), Some(Err("disk full".into())));
    // Nothing brings it back.
    announcing.written(Ok(()));
    announcing.drawn(true);
    assert_eq!(announcing.cache_read(Some(offered())), None);
    assert_eq!(announcing.result(), Some(Err("disk full".into())));
}

#[test]
fn a_refusal_that_cannot_be_written_is_an_error() {
    let mut announcing = announce_if_new();
    let claimed = announcing.cache_read(Some(offered()));
    announcing.written(Ok(()));
    announcing.drawn(false);
    assert_eq!(announcing.cache_read(claimed), Some(offered()));
    announcing.written(Err("disk full".into()));
    assert_eq!(announcing.result(), Some(Err("disk full".into())));
}

#[test]
fn an_update_and_an_announcement_do_not_undo_one_another() {
    // The update is recorded before, between and after what announcing writes.
    for recorded_at in 0..3 {
        for happened in [true, false] {
            let mut cache = Some(offered());
            let mut announcing = announce_if_new();
            let mut turn = 0;
            loop {
                if turn == recorded_at {
                    cache = Some(applied_status("1.1.0", 7));
                }
                turn += 1;
                match announcing.clone() {
                    Announcing::Announce { .. } => announcing.drawn(happened),
                    Announcing::Over { .. } if turn > recorded_at => break,
                    _ => {
                        if let Some(status) = announcing.cache_read(cache.clone()) {
                            cache = Some(status);
                            announcing.written(Ok(()));
                        }
                    }
                }
            }
            let end = cache.unwrap();
            assert_eq!(end.current, "1.1.0");
            assert!(!end.available);
        }
    }
}

#[test]
fn of_two_claims_one_is_made() {
    let first = claim_announcement(Some(offered())).unwrap();
    assert!(claim_announcement(Some(first.status)).is_none());
}

#[test]
fn the_lock_of_the_cache_stands_beside_it() {
    assert_eq!(LOCK_EXTENSION, "lock");
}

fn environment(home: Variable, cache_home: Variable) -> Environment {
    Environment {
        home,
        data_home: Variable::Unset,
        config_home: Variable::Unset,
        cache_home,
    }
}

/// `XDG_CACHE_HOME` is frequently unset, so the fallback is the usual
/// path rather than the exception.
#[test]
fn the_cache_directory_falls_back_to_the_home_one() {
    let with = cache_dir(&SAMPLE, &environment(Variable::Filled, Variable::Filled));
    let without = cache_dir(&SAMPLE, &environment(Variable::Filled, Variable::Unset));
    // An empty value is not a directory, and must read as unset.
    let empty = cache_dir(&SAMPLE, &environment(Variable::Filled, Variable::Empty));

    assert_eq!(
        with,
        Location {
            base: Base::CacheHome,
            parts: vec!["samplegauge"]
        }
    );
    assert_eq!(
        without,
        Location {
            base: Base::Home,
            parts: vec![".cache", "samplegauge"]
        }
    );
    assert_eq!(empty, without, "an empty value is not a directory");
    assert_eq!(
        update_cache_file(&SAMPLE, &environment(Variable::Filled, Variable::Unset)),
        without.join("update.json")
    );
    assert_eq!(
        cache_dir(&SAMPLE, &environment(Variable::Unset, Variable::Unset)).base,
        Base::Nothing
    );
}

#[test]
fn a_cache_that_says_nothing_says_the_default() {
    assert_eq!(
        UpdateStatus::default(),
        UpdateStatus {
            current: String::new(),
            latest: None,
            available: false,
            checked_ms: 0,
            notified: None,
        }
    );
}

#[test]
fn the_time_is_in_milliseconds_and_a_clock_before_the_epoch_reads_zero() {
    assert_eq!(now_ms(Some(1_700_000_000_000)), 1_700_000_000_000);
    assert_eq!(now_ms(None), 0);
}

fn target() -> Target {
    Target {
        parent: Some("cache".into()),
        staged: "cache/update.tmp.7".into(),
        path: "cache/update.json".into(),
    }
}

#[test]
fn a_write_is_staged_and_then_moved_into_place() {
    let mut write = write_update_status(target());
    assert_eq!(write.step, Step::MakeParent);
    write.answer(Ok(()));
    assert_eq!(write.step, Step::Stage);
    write.answer(Ok(()));
    assert_eq!(write.step, Step::Replace);
    assert_eq!(write.result(), None);
    write.answer(Ok(()));
    assert_eq!(write.result(), Some(Ok(())));

    let bare = write_update_status(Target {
        parent: None,
        ..target()
    });
    assert_eq!(bare.step, Step::Stage);
}

#[test]
fn each_failing_write_says_what_it_could_not_do() {
    let said = [
        "cannot create cache: denied",
        "cannot write cache/update.tmp.7: denied",
        "cannot replace cache/update.json: denied",
    ];
    for (steps, error) in said.iter().enumerate() {
        let mut write = write_update_status(target());
        for _ in 0..steps {
            write.answer(Ok(()));
        }
        write.answer(Err("denied".into()));
        assert_eq!(write.result(), Some(Err(error.to_string())));
        // A failure that is over stays what it was.
        write.answer(Ok(()));
        assert_eq!(write.result(), Some(Err(error.to_string())));
    }
}

#[test]
fn a_staged_file_is_named_after_its_process() {
    assert_eq!(staged_extension(0), "tmp.0");
    assert_eq!(staged_extension(7), "tmp.7");
    assert_eq!(staged_extension(4_294_967_295), "tmp.4294967295");
    for pid in 0..2000u32 {
        assert_eq!(staged_extension(pid), format!("tmp.{pid}"));
    }
}
