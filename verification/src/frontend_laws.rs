//! Where frontends belong, which are installed, where their payloads are and what
//! version they record, said of what each answer depends on.

use vstd::prelude::*;

use crate::frontend::{self, Frontend};
use crate::place::{Base, Environment, Path, Variable};
use crate::text::{self, Class};
use crate::text_laws;

verus! {

/// The directory that the desktop of a frontend looks in, below the directory for
/// data, if it is a desktop that looks there.
pub open spec fn data_dir(f: Frontend) -> Option<Seq<char>> {
    if f.id@ == "plasma"@ {
        Some("plasma/plasmoids"@)
    } else if f.id@ == "gnome"@ {
        Some("gnome-shell/extensions"@)
    } else {
        None
    }
}

/// The parts of a path, where there is one.
spec fn parts_of(path: Option<Path>) -> Seq<Seq<char>> {
    match path {
        Some((_, parts)) => parts,
        None => seq![],
    }
}

proof fn lemma_ids()
    ensures
        "plasma"@ != "gnome"@,
        "plasma"@ != "omarchy"@,
        "gnome"@ != "omarchy"@,
{
    reveal_strlit("plasma");
    reveal_strlit("gnome");
    reveal_strlit("omarchy");
    assert("plasma"@.len() == 6);
    assert("gnome"@.len() == 5);
    assert("omarchy"@.len() == 7);
}

/// Wherever `XDG_DATA_HOME` is set and not empty, the Plasma and GNOME frontends
/// belong below it, in the directory of their desktop, under the name of their
/// artifact. Neither `HOME` nor anything else of the environment changes that.
pub proof fn the_data_home_is_where_data_goes(f: Frontend, env: Environment, other: Environment)
    requires
        data_dir(f) is Some,
        env.data_home == Variable::Filled,
        other.data_home == Variable::Filled,
    ensures
        f.destination(env) == Some((Base::DataHome, seq![data_dir(f)->0, f.artifact@])),
        f.destination(other) == f.destination(env),
{
    lemma_ids();
    assert(parts_of(f.destination(env)) =~= seq![data_dir(f)->0, f.artifact@]);
    assert(parts_of(f.destination(other)) =~= seq![data_dir(f)->0, f.artifact@]);
}

/// Wherever `XDG_CONFIG_HOME` is set and not empty, the Omarchy frontend belongs
/// below it, whatever else the environment holds.
pub proof fn the_config_home_is_where_plugins_go(f: Frontend, env: Environment, other: Environment)
    requires
        f.id@ == "omarchy"@,
        env.config_home == Variable::Filled,
        other.config_home == Variable::Filled,
    ensures
        f.destination(env) == Some((Base::ConfigHome, seq!["omarchy/plugins"@, f.artifact@])),
        f.destination(other) == f.destination(env),
{
    lemma_ids();
    assert(parts_of(f.destination(env)) =~= seq!["omarchy/plugins"@, f.artifact@]);
    assert(parts_of(f.destination(other)) =~= seq!["omarchy/plugins"@, f.artifact@]);
}

/// Where the variable of its desktop is unset or empty, a frontend belongs in the
/// usual place below `HOME`, and nowhere where `HOME` is unset too. An empty
/// `HOME` is a `HOME`.
pub proof fn home_is_the_fallback(f: Frontend, env: Environment)
    ensures
        data_dir(f) is Some && env.data_home != Variable::Filled ==> f.destination(env) == if env.home
            == Variable::Unset {
            None::<Path>
        } else {
            Some((Base::Home, seq![".local/share"@, data_dir(f)->0, f.artifact@]))
        },
        f.id@ == "omarchy"@ && env.config_home != Variable::Filled ==> f.destination(env)
            == if env.home == Variable::Unset {
            None::<Path>
        } else {
            Some((Base::Home, seq![".config"@, "omarchy/plugins"@, f.artifact@]))
        },
{
    lemma_ids();
    if f.destination(env) is Some {
        let parts = parts_of(f.destination(env));
        if data_dir(f) is Some && env.data_home != Variable::Filled {
            assert(parts =~= seq![".local/share"@, data_dir(f)->0, f.artifact@]);
        }
        if f.id@ == "omarchy"@ && env.config_home != Variable::Filled {
            assert(parts =~= seq![".config"@, "omarchy/plugins"@, f.artifact@]);
        }
    }
}

/// Where a frontend belongs depends on its id, its artifact and the variable of
/// its desktop alone, with an empty one as good as none; a frontend of no desktop
/// belongs nowhere, and those of different desktops or artifacts never belong in
/// the same place.
pub proof fn destinations_depend_on_little(
    f: Frontend,
    g: Frontend,
    env: Environment,
    data: Variable,
    config: Variable,
    cache: Variable,
)
    requires
        data != Variable::Filled,
        config != Variable::Filled,
    ensures
        f.destination(Environment { cache_home: cache, ..env }) == f.destination(env),
        f.id@ == "omarchy"@ ==> f.destination(Environment { data_home: data, ..env })
            == f.destination(env),
        f.id@ != "omarchy"@ ==> f.destination(Environment { config_home: config, ..env })
            == f.destination(env),
        env.data_home == Variable::Empty ==> f.destination(Environment { data_home: data, ..env })
            == f.destination(env),
        env.config_home == Variable::Empty ==> f.destination(
            Environment { config_home: config, ..env },
        ) == f.destination(env),
        data_dir(f) is None && f.id@ != "omarchy"@ ==> f.destination(env) is None,
        f.id@ == g.id@ && f.artifact@ == g.artifact@ ==> f.destination(env) == g.destination(env),
        f.destination(env) is Some && f.destination(env) == g.destination(env) ==> f.artifact@
            == g.artifact@ && f.id@ == g.id@,
{
    lemma_ids();
    if f.destination(env) is Some && f.destination(env) == g.destination(env) {
        let x = parts_of(f.destination(env));
        let y = parts_of(g.destination(env));
        assert(x[x.len() - 1] == f.artifact@);
        assert(y[y.len() - 1] == g.artifact@);
        reveal_strlit("plasma/plasmoids");
        reveal_strlit("gnome-shell/extensions");
        reveal_strlit("omarchy/plugins");
        assert("plasma/plasmoids"@.len() == 16);
        assert("gnome-shell/extensions"@.len() == 22);
        assert("omarchy/plugins"@.len() == 15);
        assert(x[x.len() - 2].len() == y[y.len() - 2].len());
    }
}

/// Whether the frontend at place `i` is on the machine: its desktop has a place
/// for it and a directory stands there.
pub open spec fn is_there(all: Seq<Frontend>, env: Environment, dirs: Seq<bool>, i: int) -> bool {
    &&& 0 <= i < all.len()
    &&& i < dirs.len()
    &&& dirs[i]
    &&& all[i].destination(env) is Some
}

/// Whether `at` gives the places of some of `all`, in their order, and those are
/// exactly the places of the frontends on the machine.
pub open spec fn are_the_places(
    at: Seq<int>,
    all: Seq<Frontend>,
    env: Environment,
    dirs: Seq<bool>,
) -> bool {
    &&& forall|a: int, b: int| 0 <= a < b < at.len() ==> #[trigger] at[a] < #[trigger] at[b]
    &&& forall|a: int| 0 <= a < at.len() ==> is_there(all, env, dirs, #[trigger] at[a])
    &&& forall|i: int| #[trigger] is_there(all, env, dirs, i) ==> at.contains(i)
}

/// The frontends that are installed are those of the project that stand where
/// they belong: each of them, once, in the order they are declared, and no other.
pub proof fn the_installed_are_those_on_the_machine(
    all: Seq<Frontend>,
    env: Environment,
    dirs: Seq<bool>,
) -> (at: Seq<int>)
    ensures
        are_the_places(at, all, env, dirs),
        frontend::present(all, env, dirs) == at.map_values(|i: int| all[i]),
    decreases all.len(),
{
    if all.len() == 0 {
        let at = Seq::<int>::empty();
        assert(frontend::present(all, env, dirs) =~= at.map_values(|i: int| all[i]));
        at
    } else {
        let less = all.drop_last();
        let last = all.len() - 1;
        let at = the_installed_are_those_on_the_machine(less, env, dirs);
        assert forall|i: int| 0 <= i < last implies is_there(less, env, dirs, i) == is_there(
            all,
            env,
            dirs,
            i,
        ) by {
            assert(less[i] == all[i]);
        }
        assert(at.map_values(|i: int| less[i]) =~= at.map_values(|i: int| all[i])) by {
            assert forall|a: int| 0 <= a < at.len() implies less[at[a]] == all[at[a]] by {
                assert(is_there(less, env, dirs, at[a]));
            }
        }
        if is_there(all, env, dirs, last) {
            let more = at.push(last);
            assert forall|a: int, b: int| 0 <= a < b < more.len() implies #[trigger] more[a]
                < #[trigger] more[b] by {
                assert(is_there(less, env, dirs, at[a]));
            }
            assert forall|a: int| 0 <= a < more.len() implies is_there(
                all,
                env,
                dirs,
                #[trigger] more[a],
            ) by {
                if a < at.len() {
                    assert(is_there(less, env, dirs, at[a]));
                }
            }
            assert forall|i: int| #[trigger] is_there(all, env, dirs, i) implies more.contains(i) by {
                if i < last {
                    assert(is_there(less, env, dirs, i));
                    let a = choose|a: int| 0 <= a < at.len() && at[a] == i;
                    assert(more[a] == i);
                } else {
                    assert(more[at.len() as int] == last);
                }
            }
            assert(frontend::present(all, env, dirs) =~= more.map_values(|i: int| all[i]));
            more
        } else {
            assert forall|a: int| 0 <= a < at.len() implies is_there(
                all,
                env,
                dirs,
                #[trigger] at[a],
            ) by {
                assert(is_there(less, env, dirs, at[a]));
            }
            assert forall|i: int| #[trigger] is_there(all, env, dirs, i) implies at.contains(i) by {
                assert(is_there(less, env, dirs, i));
            }
            assert(frontend::present(all, env, dirs) =~= at.map_values(|i: int| all[i]));
            at
        }
    }
}

/// An id names one frontend at most, and one exactly where some frontend has it:
/// the first that does, so one declared in front of others with another id does
/// not change which, and one declared in front with that id is it.
pub proof fn an_id_names_the_first_that_has_it(
    all: Seq<Frontend>,
    id: Seq<char>,
    first: Frontend,
    f: Option<Frontend>,
    g: Option<Frontend>,
)
    ensures
        frontend::is_first_named(all, id, f) && frontend::is_first_named(all, id, g) ==> f == g,
        frontend::is_first_named(all, id, f) && f is Some ==> f->0.id@ == id && all.contains(f->0),
        frontend::is_first_named(all, id, None) <==> !exists|i: int|
            0 <= i < all.len() && (#[trigger] all[i]).id@ == id,
        first.id@ == id ==> frontend::is_first_named(seq![first] + all, id, Some(first)),
        first.id@ != id && frontend::is_first_named(all, id, f) ==> frontend::is_first_named(
            seq![first] + all,
            id,
            f,
        ),
{
    let more = seq![first] + all;
    if first.id@ == id {
        assert(more[0] == first);
    }
    if frontend::is_first_named(all, id, f) {
        match f {
            Some(found) => {
                let i = choose|i: int|
                    {
                        &&& 0 <= i < all.len()
                        &&& #[trigger] all[i] == found
                        &&& found.id@ == id
                        &&& forall|j: int| 0 <= j < i ==> (#[trigger] all[j]).id@ != id
                    };
                if first.id@ != id {
                    assert(more[i + 1] == found);
                    assert forall|j: int| 0 <= j < i + 1 implies (#[trigger] more[j]).id@ != id by {
                        if j > 0 {
                            assert(more[j] == all[j - 1]);
                        }
                    }
                }
                match g {
                    Some(other) => {
                        if frontend::is_first_named(all, id, g) {
                            let k = choose|k: int|
                                {
                                    &&& 0 <= k < all.len()
                                    &&& #[trigger] all[k] == other
                                    &&& other.id@ == id
                                    &&& forall|j: int| 0 <= j < k ==> (#[trigger] all[j]).id@ != id
                                };
                            assert(i == k);
                        }
                    },
                    None => {
                        assert(all[i].id@ == id);
                    },
                }
            },
            None => {
                if first.id@ != id {
                    assert forall|j: int| 0 <= j < more.len() implies (#[trigger] more[j]).id@
                        != id by {
                        if j > 0 {
                            assert(more[j] == all[j - 1]);
                        }
                    }
                }
            },
        }
    }
}

/// A version is read as it is written, without the white space around it and
/// without any `v` in front of it, and there is none where nothing is left. So a
/// tag's `v` never makes for another version.
pub proof fn a_recorded_version_is_the_bare_one(
    before: Seq<char>,
    marks: Seq<char>,
    version: Seq<char>,
    behind: Seq<char>,
)
    requires
        text_laws::is_all(before, Class::Space),
        forall|i: int| 0 <= i < marks.len() ==> #[trigger] marks[i] == 'v',
        text_laws::is_all(behind, Class::Space),
        version.len() > 0 ==> {
            &&& version[0] != 'v'
            &&& !text::is_space(version[0]) || marks.len() > 0
            &&& !text::is_space(version.last())
        },
    ensures
        frontend::recorded(Some(before + (marks + version) + behind)) == if version.len() > 0 {
            Some(version)
        } else {
            None
        },
        frontend::recorded(None) is None,
{
    let kept = marks + version;
    if kept.len() > 0 {
        if marks.len() > 0 {
            assert(kept[0] == marks[0]);
        } else {
            assert(kept[0] == version[0]);
        }
        if version.len() > 0 {
            assert(kept.last() == version.last());
        } else {
            assert(kept.last() == marks[marks.len() - 1]);
        }
    }
    text_laws::the_space_around_is_trimmed(before, kept, behind);
    assert forall|i: int| 0 <= i < marks.len() implies Class::SmallV.holds(
        #[trigger] marks[i],
    ) by {}
    text_laws::the_start_is_stripped(marks, version, Class::SmallV);
}

/// A string under the pointer is read as it stands, whatever it would be shown
/// as. Anything else there is read as it is shown, and nothing only where there is
/// nothing. A file that could not be read records no version.
pub proof fn a_string_is_read_and_a_number_forgiven(f: Frontend, raw: Seq<char>)
    ensures
        f.version_read(None) is None,
        frontend::json_string_at(raw, f.version_source.pointer_text()) matches Some(s)
            ==> f.version_read(Some(raw)) == frontend::recorded(Some(s)),
        frontend::json_string_at(raw, f.version_source.pointer_text()) is None ==> f.version_read(
            Some(raw),
        ) == frontend::recorded(frontend::json_shown_at(raw, f.version_source.pointer_text())),
{
}

/// An archive keeps every payload below one directory, and a checkout keeps it
/// where it is developed, or, if it is compiled, in that same directory below the
/// build: never among the sources it is compiled from.
pub proof fn payloads_are_kept_apart_from_sources(f: Frontend)
    ensures
        f.archived_path() == (Base::Source, seq!["frontends"@, f.payload@]),
        f.compiled ==> f.checkout_path() == (Base::Source, seq!["build"@] + f.archived_path().1),
        f.compiled ==> f.checkout_path() != (Base::Source, seq![f.payload@]),
        !f.compiled ==> f.checkout_path() == (Base::Source, seq![f.payload@]),
{
    assert(f.compiled ==> f.checkout_path().1 =~= seq!["build"@] + f.archived_path().1);
    assert(seq![f.payload@].len() == 1);
}

/// Each desktop's metadata is one file and one place in it, which no two desktops
/// share.
pub proof fn each_source_is_read_at_its_own_place(
    a: frontend::VersionSource,
    b: frontend::VersionSource,
)
    requires
        a != b,
    ensures
        a.pointer_text() != b.pointer_text(),
        text::starts_with(a.pointer_text(), "/"@),
        text::ends_with(a.file_name(), ".json"@),
{
    reveal_strlit("/");
    reveal_strlit("/KPlugin/Version");
    reveal_strlit("/version-name");
    reveal_strlit("/version");
    assert("/KPlugin/Version"@.len() == 16);
    assert("/version-name"@.len() == 13);
    assert("/version"@.len() == 8);
    assert(a.pointer_text().take(1) =~= "/"@);
    let stem = match a {
        frontend::VersionSource::PlasmaMetadata => "metadata"@,
        frontend::VersionSource::GnomeMetadata => "metadata"@,
        frontend::VersionSource::ManifestVersion => "manifest"@,
    };
    assert(a.file_name() == stem + ".json"@);
    text_laws::starting_and_ending(a.file_name(), ".json"@);
}

/// A payload is taken from where there is a directory, from the archive's layout
/// where both have one, and from nowhere where neither has.
pub proof fn a_payload_is_taken_from_where_it_is(f: Frontend, checkout_is_dir: bool)
    ensures
        f.payload_path(true, checkout_is_dir) == Some(f.archived_path()),
        f.payload_path(false, true) == Some(f.checkout_path()),
        f.payload_path(false, false) is None,
{
}

/// A copy without its compiled schemas is ready exactly where it needs none, and
/// one with them always is.
pub proof fn only_schemas_can_be_missing(f: Frontend)
    ensures
        f.is_ready(true),
        f.is_ready(false) <==> !f.gsettings_schemas,
{
}

/// The version that is found is the one the installed copy records, and none is
/// where there is no place for a copy.
pub proof fn the_version_found_is_the_copys(f: Frontend, env: Environment, raw: Option<Seq<char>>)
    ensures
        f.destination(env) is Some ==> f.version_found(env, raw) == f.version_read(raw),
        f.destination(env) is None ==> f.version_found(env, raw) is None,
{
}

/// References to frontends are to be read as the frontends they lead to, each in
/// its place.
pub proof fn references_lead_to_frontends(refs: Seq<&'static Frontend>, i: int)
    requires
        0 <= i < refs.len(),
    ensures
        frontend::targets(refs).len() == refs.len(),
        frontend::targets(refs)[i] == *refs[i],
        frontend::target(Some(refs[i])) == Some(*refs[i]),
        frontend::target(None) is None,
{
}

} // verus!
