//! Refreshing the names beside the binary, in a directory held in memory.

use std::collections::BTreeMap;

use selvedge::aliases::Action;
use selvedge::release::Os;
use selvedge::update::refresh_aliases;
use selvedge::Project;

const SAMPLE: Project = Project {
    binaries: &["samplegauge", "samplegauge-tui"],
    repo: "Arzaroth/SampleGauge",
    repo_env: "SAMPLEGAUGE_REPO",
    version: "1.2.3",
    frontends: &[],
    aliases: &["samplegauge-ctl", "samplegauge-watch"],
    legacy: &["samplegauge-update"],
    msi_marker_key: Some(r"HKCU\Software\SampleGauge"),
};

#[derive(Clone, Debug, PartialEq)]
enum Entry {
    File(&'static str),
    Link(&'static str),
}

type Dir = BTreeMap<&'static str, Entry>;

fn dir(entries: &[(&'static str, Entry)]) -> Dir {
    entries.iter().cloned().collect()
}

fn read(dir: &Dir, name: &str) -> Option<&'static str> {
    match dir.get(name)? {
        Entry::File(text) => Some(text),
        Entry::Link(to) => read(dir, to),
    }
}

fn refresh(project: &Project, os: Os, dir: &mut Dir) {
    let primary = project.primary();
    let mut refresh = refresh_aliases(project, os);
    loop {
        let done = match refresh.action() {
            Action::LookForPrimary => read(dir, primary).is_some(),
            Action::LookAt(name) => dir.get(name) == Some(&Entry::Link(primary)),
            Action::Remove(name) => dir.remove(name).is_some(),
            Action::Link(name) => {
                let free = !dir.contains_key(name);
                if free {
                    dir.insert(name, Entry::Link(primary));
                }
                free
            }
            Action::Stop => return,
        };
        refresh.answer(done);
    }
}

#[test]
fn every_old_helper_name_becomes_a_link_to_the_binary() {
    let mut dir = dir(&[("samplegauge", Entry::File("binary"))]);
    refresh(&SAMPLE, Os::Unix, &mut dir);
    for alias in SAMPLE.aliases {
        assert_eq!(dir[alias], Entry::Link(SAMPLE.primary()), "{alias}");
        assert_eq!(read(&dir, alias), Some("binary"), "{alias} resolves");
    }
}

#[test]
fn an_upgrade_from_the_shell_helpers_replaces_the_scripts() {
    // What 0.4.0 leaves behind: real bash scripts. Left in place they would
    // answer for their names forever.
    let mut dir = dir(&[
        ("samplegauge", Entry::File("new")),
        ("samplegauge-ctl", Entry::File("#!/bin/bash\n")),
    ]);
    refresh(&SAMPLE, Os::Unix, &mut dir);
    assert_eq!(dir[SAMPLE.aliases[0]], Entry::Link("samplegauge"));
    assert_eq!(read(&dir, SAMPLE.aliases[0]), Some("new"));
}

#[test]
fn a_missing_binary_leaves_the_helpers_alone() {
    // The half-extracted archive case: replacing a working helper with a
    // link to a file that is not there is worse than doing nothing.
    let mut dir = dir(&[("samplegauge-ctl", Entry::File("#!/bin/bash\n"))]);
    let before = dir.clone();
    refresh(&SAMPLE, Os::Unix, &mut dir);
    assert_eq!(dir[SAMPLE.aliases[0]], Entry::File("#!/bin/bash\n"));
    assert_eq!(dir, before);
}

#[test]
fn refreshing_an_existing_set_of_aliases_is_a_no_op() {
    let mut dir = dir(&[("samplegauge", Entry::File("binary"))]);
    refresh(&SAMPLE, Os::Unix, &mut dir);
    let before = dir.clone();
    refresh(&SAMPLE, Os::Unix, &mut dir);
    assert_eq!(dir, before);
    assert_eq!(dir[SAMPLE.aliases[0]], Entry::Link(SAMPLE.primary()));
}

#[test]
fn a_name_the_new_layout_does_not_write_is_taken_away() {
    let mut dir = dir(&[
        ("samplegauge", Entry::File("binary")),
        ("samplegauge-update", Entry::File("#!/bin/bash\n")),
    ]);
    refresh(&SAMPLE, Os::Unix, &mut dir);
    assert!(
        !dir.contains_key(SAMPLE.legacy[0]),
        "a helper nothing writes any more still answers for its own name"
    );
    // And the aliases it does write are still there.
    assert_eq!(dir[SAMPLE.aliases[0]], Entry::Link(SAMPLE.primary()));
}

#[test]
fn nothing_is_taken_away_when_there_is_no_binary_to_replace_it() {
    // Half an install is worse than the old one: without the binary these
    // names are all that works.
    let mut dir = dir(&[("samplegauge-update", Entry::File("#!/bin/bash\n"))]);
    refresh(&SAMPLE, Os::Unix, &mut dir);
    assert!(
        dir.contains_key(SAMPLE.legacy[0]),
        "it was the only thing left that ran"
    );
}

#[test]
fn the_primary_binary_is_the_one_the_rest_are_named_after() {
    assert_eq!(SAMPLE.primary(), "samplegauge");
    // And the aliases point at it, not at a later one.
    let mut dir = dir(&[("samplegauge", Entry::File("binary"))]);
    refresh(&SAMPLE, Os::Unix, &mut dir);
    assert_eq!(dir[SAMPLE.aliases[0]], Entry::Link("samplegauge"));
}

#[test]
fn windows_has_no_links_to_refresh() {
    let mut dir = dir(&[
        ("samplegauge", Entry::File("binary")),
        ("samplegauge-ctl", Entry::File("real")),
        ("samplegauge-update", Entry::File("stale")),
        ("unrelated", Entry::File("kept")),
    ]);
    refresh(&SAMPLE, Os::Windows, &mut dir);
    assert_eq!(dir["samplegauge-ctl"], Entry::File("real"));
    assert!(!dir.contains_key("samplegauge-watch"));
    assert!(!dir.contains_key("samplegauge-update"));
    assert_eq!(dir["unrelated"], Entry::File("kept"));
}
