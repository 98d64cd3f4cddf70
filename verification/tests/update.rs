//! What a release offers, and what a check or an update makes of it.

use selvedge::msi;
use selvedge::place::{Environment, Variable};
use selvedge::proc::{has, is_executable, output, run_quiet, which, FileFacts};
use selvedge::release::{
    msi_asset, platform_asset, ArchiveKind, Os, Release, ReleaseAsset,
};
use selvedge::update::{
    applied_status, arch_target, archive_kind, archive_suffix, asks_for_product_code, check,
    check_cached, choose_frontend_archive, choose_update, is_product_code, latest_release, msi_product_code,
    parse_reg_value, release_named, version_gt, Applied, Choice, Started, CACHE_TTL_MS, DOWNLOAD_ACCEPT,
};
use selvedge::{Project, UpdateStatus};

const SAMPLE: Project = Project {
    binaries: &["samplegauge", "samplegauge-tui"],
    repo: "Arzaroth/SampleGauge",
    repo_env: "SAMPLEGAUGE_REPO",
    version: "1.2.3",
    frontends: &[],
    aliases: &["samplegauge-ctl", "samplegauge-watch"],
    legacy: &["samplegauge-update"],
    msi_marker_key: Some(r"HKCU\Software\SampleGauge"),
};

#[test]
fn a_newer_version_is_newer_however_it_is_spelled() {
    assert!(version_gt("0.5.0", "0.4.9"));
    assert!(version_gt("v1.0.0", "0.31.0"));
    assert!(version_gt("0.10.0", "0.9.0"), "0.10 is not 0.1");
    assert!(!version_gt("0.4.0", "0.4.0"));
    assert!(!version_gt("0.4.0", "0.5.0"));
    assert!(
        !version_gt("0.5.0-rc1", "0.5.0"),
        "a pre-release is the release"
    );
}

#[test]
fn odd_versions_compare_by_the_numbers_they_hold() {
    assert!(version_gt("1.0.1", "1.0"));
    assert!(!version_gt("1.0", "1.0.0"));
    assert!(!version_gt("1.0.0", "1.0"));
    assert!(version_gt("V2", "v1.9.9"));
    assert!(version_gt(" v1.2 ", "1.1"));
    assert!(!version_gt("", "0"));
    assert!(!version_gt("x.y", "0.0"));
    assert!(version_gt("0.0.1", ""));
    assert!(!version_gt("1.2+build5", "1.2"));
    // Too large for a number is no number.
    assert!(!version_gt("99999999999999999999999", "1"));
    assert!(version_gt("18446744073709551615", "18446744073709551614"));
}

#[test]
fn newer_is_a_strict_order_on_samples() {
    let samples = ["0.1", "v0.1.0", "0.2-rc1", "0.2", "1", "1.0.1", "", "junk"];
    for a in samples {
        assert!(!version_gt(a, a));
        for b in samples {
            assert!(!(version_gt(a, b) && version_gt(b, a)));
            for c in samples {
                if version_gt(a, b) && version_gt(b, c) {
                    assert!(version_gt(a, c));
                }
            }
        }
    }
}

#[test]
fn a_value_is_read_from_the_registry_line_that_names_it() {
    let out = "\r\nHKEY_CURRENT_USER\\Software\\SampleGauge\r\n    \
               ProductCode    REG_SZ    {D2B4E6A1-1111-4C3E-9F0A-ABCDEF012345}\r\n";
    assert_eq!(
        parse_reg_value(out, "ProductCode").as_deref(),
        Some("{D2B4E6A1-1111-4C3E-9F0A-ABCDEF012345}")
    );
    // A longer name starting with the one asked for must not answer.
    let other = "    ProductCodeOther    REG_SZ    {D2B4E6A1-1111-4C3E-9F0A-ABCDEF012345}\r\n";
    assert_eq!(parse_reg_value(other, "ProductCode"), None);
    assert_eq!(parse_reg_value("", "ProductCode"), None);
    assert_eq!(
        parse_reg_value("    ProductCode    REG_SZ    \r\n", "ProductCode"),
        None
    );
    assert_eq!(
        msi_product_code(Some(out)).as_deref(),
        Some("{D2B4E6A1-1111-4C3E-9F0A-ABCDEF012345}")
    );
    assert_eq!(
        msi_product_code(Some("ProductCode REG_SZ not-a-code\n")),
        None
    );
    assert_eq!(msi_product_code(None), None);
}

#[test]
fn only_a_registry_shaped_guid_is_taken_for_one() {
    // It is user-writable, and it is about to name a registry key.
    assert!(is_product_code("{D2B4E6A1-1111-4C3E-9F0A-ABCDEF012345}"));
    assert!(!is_product_code("D2B4E6A1-1111-4C3E-9F0A-ABCDEF012345"));
    assert!(!is_product_code("{D2B4E6A1-1111-4C3E-9F0A-ABCDEF01234}"));
    assert!(!is_product_code("{D2B4E6A1-1111-4C3E-9F0A-ABCDEFZZ2345}"));
    assert!(!is_product_code("{}"));
    assert!(!is_product_code(
        r"{../../etc/passwd-1111-4C3E-9F0A-ABCDEF012345}"
    ));
    assert!(is_product_code("{d2b4e6a1-1111-4c3e-9f0a-abcdef012345}"));
    assert!(!is_product_code(""));
}

/// The extractor and the asset asked for have to describe the same file.
/// Nothing downstream notices the disagreement: the download succeeds and
/// the extraction fails on a machine no one is building on.
#[test]
fn the_archive_kind_matches_the_suffix_the_updater_asks_for() {
    for os in [Os::Windows, Os::Unix] {
        match archive_kind(os) {
            ArchiveKind::Zip => assert_eq!(archive_suffix(os), ".zip"),
            ArchiveKind::TarGz => assert_eq!(archive_suffix(os), ".tar.gz"),
        }
    }
    assert_eq!(archive_kind(Os::Windows), ArchiveKind::Zip);
    assert_eq!(archive_kind(Os::Unix), ArchiveKind::TarGz);
}

/// An asset name carries the operating system as well as the architecture.
/// Naming only the architecture is how a Windows x86_64 build asked for
/// the Linux asset and got one.
#[test]
fn the_platform_substring_names_the_running_os() {
    for (os, name) in [(Os::Windows, "windows"), (Os::Unix, "linux")] {
        let target = arch_target(os, "x86_64").expect("releases are built for x86_64");
        assert!(
            target.starts_with(name),
            "{target} does not name {name}, so it matches another platform's asset"
        );
    }
    assert_eq!(arch_target(Os::Unix, "aarch64"), Ok("linux-aarch64"));
    assert_eq!(arch_target(Os::Unix, "arm64"), Ok("linux-aarch64"));
    assert_eq!(
        arch_target(Os::Windows, "aarch64"),
        Err("unsupported arch: aarch64".to_string())
    );
    assert_eq!(
        arch_target(Os::Unix, "riscv64"),
        Err("unsupported arch: riscv64".to_string())
    );
}

fn asset(name: &str) -> ReleaseAsset {
    ReleaseAsset {
        name: name.to_string(),
        download_url: format!("https://example.invalid/{name}"),
    }
}

fn release(version: &str, names: &[&str]) -> Release {
    Release {
        version: version.to_string(),
        assets: names.iter().map(|n| asset(n)).collect(),
    }
}

#[test]
fn an_archive_for_another_platform_is_never_taken() {
    // The only archive with the suffix is another platform's.
    let other = release("2.0.0", &["samplegauge-v2.0.0-linux-aarch64.tar.gz"]);
    assert_eq!(platform_asset(&other, "linux-x86_64", ".tar.gz"), None);

    let both = release(
        "2.0.0",
        &[
            "samplegauge-v2.0.0-linux-x86_64.tar.gz.sha256",
            "samplegauge-v2.0.0-linux-aarch64.tar.gz",
            "samplegauge-v2.0.0-linux-x86_64.tar.gz",
            "samplegauge-v2.0.0-windows-x86_64.zip",
        ],
    );
    let found = platform_asset(&both, "linux-x86_64", ".tar.gz").unwrap();
    assert!(found.name.contains("linux-x86_64"));
    assert!(found.name.contains(".tar.gz"));
    assert_eq!(
        found.download_url,
        format!("https://example.invalid/{}", found.name)
    );
    assert_eq!(
        platform_asset(&both, "windows-x86_64", ".zip"),
        Some(asset("samplegauge-v2.0.0-windows-x86_64.zip"))
    );
}

const USER: Environment = Environment {
    home: Variable::Filled,
    data_home: Variable::Unset,
    config_home: Variable::Unset,
    cache_home: Variable::Unset,
};

const LINUX: &str = "a-linux-x86_64.tar.gz";
const WINDOWS: &str = "a-windows-x86_64.zip";
const PACKAGE: &str = "a.msi";

#[test]
fn the_newest_release_for_the_platform_is_the_latest() {
    let releases = vec![
        release("3.0.0", &[WINDOWS]),
        release("2.0.0", &[LINUX]),
        release("1.0.0", &[LINUX]),
    ];
    assert_eq!(latest_release(&releases, "linux-x86_64", ".tar.gz"), Ok(1));
    assert_eq!(latest_release(&releases, "windows-x86_64", ".zip"), Ok(0));
    assert_eq!(
        latest_release(&releases, "linux-aarch64", ".tar.gz"),
        Err("no release with a linux-aarch64 asset found".to_string())
    );
    assert_eq!(release_named(&releases, "v2.0.0"), Ok(1));
    assert_eq!(release_named(&releases, "1.0.0"), Ok(2));
    assert_eq!(
        release_named(&releases, "v9"),
        Err("no release v9 to install frontends from".to_string())
    );
    assert_eq!(msi_asset(&release("1", &[LINUX, PACKAGE, "b.msi"])), Ok(1));
    assert_eq!(
        msi_asset(&release("1", &[LINUX])),
        Err("release 1 has no .msi asset; download it from the releases page".to_string())
    );
}

#[test]
fn an_update_replaces_only_with_something_newer() {
    let newer = vec![release("1.2.4", &[LINUX, WINDOWS, PACKAGE])];
    assert_eq!(
        choose_update(&SAMPLE, &newer, Os::Unix, "linux-x86_64", None),
        Ok(Choice::Replace {
            version: "1.2.4".to_string(),
            asset: asset(LINUX)
        })
    );
    // The same version, and an older one, leave everything as it is.
    for version in ["1.2.3", "v1.2.3", "1.1.9"] {
        let current = vec![release(version, &[LINUX])];
        assert_eq!(
            choose_update(&SAMPLE, &current, Os::Unix, "linux-x86_64", None),
            Ok(Choice::Current {
                applied: Applied {
                    version: "1.2.3".to_string(),
                    frontends: vec![],
                    installer_launched: false,
                }
            })
        );
    }
    let ahead = Project {
        version: "0.10.0",
        ..SAMPLE
    };
    let behind = vec![release("0.9.0", &["samplegauge-v0.9.0-linux-x86_64.tar.gz"])];
    assert_eq!(
        choose_update(&ahead, &behind, Os::Unix, "linux-x86_64", None),
        Ok(Choice::Current {
            applied: Applied {
                version: "0.10.0".to_string(),
                frontends: vec![],
                installer_launched: false,
            }
        })
    );
    assert_eq!(
        choose_update(&SAMPLE, &vec![], Os::Unix, "linux-x86_64", None),
        Err("no release with a linux-x86_64 asset found".to_string())
    );
}

#[test]
fn what_the_installer_installed_the_installer_upgrades() {
    let code = Some("{D2B4E6A1-1111-4C3E-9F0A-ABCDEF012345}");
    let newer = vec![release("1.2.4", &[WINDOWS, PACKAGE])];
    let packaged = Choice::Package {
        version: "1.2.4".to_string(),
        asset: asset(PACKAGE),
    };
    let replaced = Choice::Replace {
        version: "1.2.4".to_string(),
        asset: asset(WINDOWS),
    };
    let choose = |project: &Project, code| {
        choose_update(project, &newer, Os::Windows, "windows-x86_64", code)
    };
    assert_eq!(choose(&SAMPLE, code), Ok(packaged));
    assert_eq!(choose(&SAMPLE, None), Ok(replaced.clone()));
    let unmarked = Project {
        msi_marker_key: None,
        ..SAMPLE
    };
    assert_eq!(choose(&unmarked, code), Ok(replaced));
    assert_eq!(
        choose_update(
            &SAMPLE,
            &vec![release("1.2.4", &[WINDOWS])],
            Os::Windows,
            "windows-x86_64",
            code
        ),
        Err("release 1.2.4 has no .msi asset; download it from the releases page".to_string())
    );
}

#[test]
fn frontends_are_installed_from_the_release_they_belong_to() {
    let releases = vec![
        release("2.0.0", &[LINUX]),
        release("1.2.3", &[WINDOWS, LINUX]),
        release("1.0.0", &[WINDOWS, "a-linux-aarch64.tar.gz"]),
    ];
    let choose =
        |version: &str| choose_frontend_archive(&releases, Os::Unix, "linux-x86_64", version);
    assert_eq!(choose("v1.2.3"), Ok(asset(LINUX)));
    assert_eq!(
        choose("1.0.0"),
        Err("release 1.0.0 has no asset for this platform".to_string())
    );
    assert_eq!(
        choose("3.0.0"),
        Err("no release v3.0.0 to install frontends from".to_string())
    );
}

#[test]
fn a_check_reports_what_is_running_and_keeps_the_guard() {
    let cached = Some(UpdateStatus {
        current: "1.0.0".into(),
        latest: Some("1.1.0".into()),
        available: true,
        checked_ms: 5,
        notified: Some("1.1.0".into()),
    });
    assert_eq!(
        check(&SAMPLE, cached, 3, 3, "1.3.0", 9),
        UpdateStatus {
            current: "1.2.3".into(),
            latest: Some("1.3.0".into()),
            available: true,
            checked_ms: 9,
            notified: Some("1.1.0".into()),
        }
    );
    let none = check(&SAMPLE, None, 0, 0, "1.2.3", 9);
    assert!(!none.available);
    assert_eq!(none.latest.as_deref(), Some("1.2.3"));
}

#[test]
fn an_update_that_finishes_during_a_check_is_not_undone() {
    let updated = Some(applied_status("1.3.0", 7));
    let status = check(&SAMPLE, updated.clone(), 3, 4, "1.3.0", 9);
    assert_eq!(status.current, "1.3.0");
    assert!(!status.available);
    // One to something older than what runs is not what is current.
    let older = Some(applied_status("1.0.0", 7));
    assert_eq!(check(&SAMPLE, older, 3, 4, "1.3.0", 9).current, "1.2.3");
}

#[test]
fn another_check_does_not_change_what_a_check_finds() {
    // The cache says a newer version, and was written meanwhile by a check.
    for checked_ms in [5, 7] {
        let cached = Some(UpdateStatus {
            current: "1.3.0".into(),
            latest: Some("1.3.0".into()),
            checked_ms,
            ..Default::default()
        });
        let status = check(&SAMPLE, cached, 3, 3, "1.3.0", 9);
        assert_eq!(status.current, "1.2.3");
        assert!(status.available);
    }
}

#[test]
fn what_was_chosen_is_what_is_started() {
    let replaced = Choice::Replace {
        version: "1.2.4".to_string(),
        asset: asset(LINUX),
    };
    match replaced.start(&SAMPLE, Os::Unix, &USER) {
        Started::Replace { job } => {
            assert_eq!(job.version, "1.2.4");
            assert_eq!(job.asset, asset(LINUX));
        }
        other => panic!("{other:?}"),
    }
    let packaged = Choice::Package {
        version: "1.2.4".to_string(),
        asset: asset(PACKAGE),
    };
    match packaged.start(&SAMPLE, Os::Windows, &USER) {
        Started::Package { upgrade } => {
            assert_eq!(upgrade.version, "1.2.4");
            assert_eq!(upgrade.asset, asset(PACKAGE));
        }
        other => panic!("{other:?}"),
    }
}

#[test]
fn the_registry_is_asked_only_where_the_answer_matters() {
    let newer = vec![release("1.2.4", &[WINDOWS, LINUX])];
    let same = vec![release("1.2.3", &[WINDOWS])];
    let unmarked = Project {
        msi_marker_key: None,
        ..SAMPLE
    };
    let windows = |project: &Project, releases: &Vec<Release>| {
        asks_for_product_code(project, releases, Os::Windows, "windows-x86_64")
    };
    assert!(windows(&SAMPLE, &newer));
    assert!(!windows(&SAMPLE, &same));
    assert!(!windows(&SAMPLE, &vec![]));
    assert!(!windows(&unmarked, &newer));
    assert!(!asks_for_product_code(
        &SAMPLE,
        &newer,
        Os::Unix,
        "linux-x86_64"
    ));
}

#[test]
fn an_update_drops_the_banner_from_the_cache() {
    assert_eq!(
        applied_status("1.3.0", 7),
        UpdateStatus {
            current: "1.3.0".into(),
            latest: Some("1.3.0".into()),
            available: false,
            checked_ms: 7,
            notified: None,
        }
    );
}

const NOW: i64 = 1_700_000_000_000;

#[test]
fn a_fresh_cache_answers_without_reaching_github() {
    // The panel polls this. A check that always went out would hit the
    // unauthenticated rate limit on a machine that restarts its shell.
    let cached = UpdateStatus {
        current: SAMPLE.version.into(),
        latest: Some("9.9.9".into()),
        available: true,
        checked_ms: NOW,
        notified: None,
    };
    let status = check_cached(Some(cached.clone()), false, NOW).expect("served from cache");
    assert_eq!(status.latest.as_deref(), Some("9.9.9"));
    assert!(status.available);
    assert_eq!(status, cached);
    assert!(check_cached(Some(cached.clone()), true, NOW).is_none());
    assert!(check_cached(Some(cached), false, NOW + CACHE_TTL_MS - 1).is_some());
}

#[test]
fn a_stale_or_empty_cache_is_not_served() {
    // Older than the TTL.
    let stale = UpdateStatus {
        latest: Some("9.9.9".into()),
        checked_ms: NOW - CACHE_TTL_MS - 1,
        ..Default::default()
    };
    assert!(
        check_cached(Some(stale.clone()), false, NOW).is_none(),
        "a cache past the TTL must be refetched"
    );
    let just_stale = UpdateStatus {
        checked_ms: NOW - CACHE_TTL_MS,
        ..stale
    };
    assert!(check_cached(Some(just_stale), false, NOW).is_none());

    // Checked just now, but carrying no answer.
    let failed = UpdateStatus {
        latest: None,
        checked_ms: NOW,
        ..Default::default()
    };
    assert!(
        check_cached(Some(failed.clone()), false, NOW).is_none(),
        "a check that failed is not an answer"
    );
    let blank = UpdateStatus {
        latest: Some(String::new()),
        ..failed
    };
    assert!(check_cached(Some(blank), false, NOW).is_none());
    assert!(check_cached(None, false, NOW).is_none());
    // The subtraction saturates.
    let far = UpdateStatus {
        latest: Some("9.9.9".into()),
        checked_ms: i64::MAX,
        ..Default::default()
    };
    assert!(check_cached(Some(far), false, i64::MIN).is_some());
}

#[test]
fn the_constants_are_six_hours_and_raw_bytes() {
    assert_eq!(CACHE_TTL_MS, 21_600_000);
    assert_eq!(DOWNLOAD_ACCEPT, "application/octet-stream");
}

const RUNNABLE: Option<FileFacts> = Some(FileFacts {
    is_file: true,
    mode: 0o755,
});
const PLAIN: Option<FileFacts> = Some(FileFacts {
    is_file: true,
    mode: 0o644,
});
const DIRECTORY: Option<FileFacts> = Some(FileFacts {
    is_file: false,
    mode: 0o755,
});

#[test]
fn a_name_that_is_not_on_path_resolves_to_nothing() {
    assert!(which(Os::Unix, &vec![None, None]).is_none());
    assert!(!has(Os::Unix, &vec![None, None]));
    assert!(!has(Os::Unix, &vec![]));
    assert!(
        which(Os::Unix, &vec![None, RUNNABLE, RUNNABLE]) == Some(1),
        "the first directory that has it answers"
    );
    assert!(has(Os::Unix, &vec![None, RUNNABLE]));
}

#[test]
fn a_file_that_is_not_executable_is_not_a_program() {
    let found = which(Os::Unix, &vec![PLAIN]);
    assert!(found.is_none(), "a non-executable file answered: {found:?}");
    assert_eq!(which(Os::Unix, &vec![PLAIN, DIRECTORY, RUNNABLE]), Some(2));
    // Windows has no such bit.
    assert!(is_executable(Os::Windows, PLAIN));
    assert!(!is_executable(Os::Windows, DIRECTORY));
    assert!(!is_executable(Os::Unix, DIRECTORY));
    for mode in [0o100, 0o010, 0o001] {
        let facts = FileFacts {
            is_file: true,
            mode,
        };
        assert!(is_executable(Os::Unix, Some(facts)));
    }
}

#[test]
fn output_is_trimmed_and_a_failure_is_not_an_answer() {
    assert_eq!(output(Some(true), "hi\n\n").as_deref(), Some("hi"));
    assert_eq!(output(Some(false), ""), None);
    assert!(run_quiet(Some(true)));
    assert!(!run_quiet(Some(false)));
    assert!(!run_quiet(None));
    assert_eq!(output(None, ""), None);
    assert_eq!(output(Some(true), "  hi \t").as_deref(), Some("  hi"));
}

#[test]
fn space_is_what_unicode_says_it_is() {
    for c in (0..=0x10ffffu32).filter_map(char::from_u32) {
        let text = format!("a{c}");
        let kept = output(Some(true), &text).unwrap();
        assert_eq!(kept, text.trim_end(), "{:x}", c as u32);
    }
}

fn refused(cause: &str) -> Result<(), msi::Failed> {
    Err(msi::Failed {
        place: "there".to_string(),
        cause: cause.to_string(),
    })
}

#[test]
fn a_packaged_upgrade_ends_with_the_installer_running() {
    let mut upgrade = msi::msi_upgrade("1.2.4", asset(PACKAGE));
    assert_eq!(upgrade.step, msi::Step::Clear);
    // Nothing to clear is no reason to stop.
    upgrade.answer(refused("not found"));
    for step in [
        msi::Step::MakeStaging,
        msi::Step::CreatePackage,
        msi::Step::Download,
        msi::Step::Launch,
    ] {
        assert_eq!(upgrade.step, step);
        assert!(upgrade.clone().finish().is_none());
        match upgrade.action() {
            msi::Action::CreatePackage(name) => assert_eq!(name, PACKAGE),
            msi::Action::Download(what) => assert_eq!(what, asset(PACKAGE)),
            msi::Action::Launch(name) => assert_eq!(name, PACKAGE),
            other => assert!(matches!(other, msi::Action::MakeStaging)),
        }
        upgrade.answer(Ok(()));
    }
    assert!(matches!(upgrade.action(), msi::Action::Stop));
    let applied = upgrade.finish().unwrap().unwrap();
    assert_eq!(applied.version, "1.2.4");
    assert!(applied.frontends.is_empty());
    assert!(applied.installer_launched);
    assert_eq!(
        (msi::STAGING, msi::INSTALLER, msi::INSTALL_FLAG, msi::PROGRESS_FLAG),
        ("selvedge-update", "msiexec", "/i", "/qb")
    );
}

#[test]
fn each_failing_packaged_upgrade_says_why() {
    let said = [
        "cannot create staging dir there: denied",
        "cannot create there: denied",
        "download failed: denied",
        "failed to launch msiexec: denied",
    ];
    for (steps, error) in said.iter().enumerate() {
        let mut upgrade = msi::msi_upgrade("1.2.4", asset(PACKAGE));
        for _ in 0..=steps {
            upgrade.answer(Ok(()));
        }
        upgrade.answer(refused("denied"));
        let end = upgrade.finish().unwrap().map(|a| a.version);
        assert_eq!(end, Err(error.to_string()));
    }
}
