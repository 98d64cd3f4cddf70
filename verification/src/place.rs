//! Where things live: a directory that something else names, and the names
//! joined onto it.

use vstd::prelude::*;

verus! {

/// What the environment holds under one name.
#[derive(Debug, Clone, Copy, PartialEq, Eq, Structural)]
pub enum Variable {
    Unset,
    /// Set, to nothing.
    Empty,
    /// Set, to something.
    Filled,
}

/// What the environment says about where a user's files live.
#[derive(Debug, Clone, Copy, PartialEq, Eq, Structural)]
pub struct Environment {
    /// `HOME`.
    pub home: Variable,
    /// `XDG_DATA_HOME`.
    pub data_home: Variable,
    /// `XDG_CONFIG_HOME`.
    pub config_home: Variable,
    /// `XDG_CACHE_HOME`.
    pub cache_home: Variable,
}

/// The directory that a location starts from.
#[derive(Debug, Clone, Copy, PartialEq, Eq, Structural)]
pub enum Base {
    /// The empty path.
    Nothing,
    /// The value of `HOME`.
    Home,
    /// The value of `XDG_DATA_HOME`.
    DataHome,
    /// The value of `XDG_CONFIG_HOME`.
    ConfigHome,
    /// The value of `XDG_CACHE_HOME`.
    CacheHome,
    /// An extracted archive, or a checkout.
    Source,
}

/// A path: the base, with each part joined onto it in turn.
#[derive(Debug, Clone, PartialEq, Eq)]
pub struct Location {
    pub base: Base,
    pub parts: Vec<&'static str>,
}

/// A location in contracts: the base, and the text of each part.
pub type Path = (Base, Seq<Seq<char>>);

impl View for Location {
    type V = Path;

    open spec fn view(&self) -> Path {
        (self.base, texts(self.parts@))
    }
}

/// The texts of a sequence of parts.
pub open spec fn texts(parts: Seq<&'static str>) -> Seq<Seq<char>> {
    Seq::new(parts.len(), |i: int| parts[i]@)
}

/// The view of a location that may be missing.
pub open spec fn path_of(l: Option<Location>) -> Option<Path> {
    match l {
        Some(l) => Some(l@),
        None => None,
    }
}

impl Location {
    /// The location one part further down.
    pub fn join(self, part: &'static str) -> (r: Location)
        ensures
            r@ == (self@.0, self@.1.push(part@)),
    {
        let mut parts = self.parts;
        parts.push(part);
        let r = Location { base: self.base, parts };
        assert(r@.1 =~= self@.1.push(part@));
        r
    }

    /// The base itself.
    pub fn at(base: Base) -> (r: Location)
        ensures
            r@ == (base, Seq::<Seq<char>>::empty()),
    {
        let r = Location { base, parts: Vec::new() };
        assert(r@.1 =~= Seq::<Seq<char>>::empty());
        r
    }
}

/// Where the desktop keeps data: `XDG_DATA_HOME` where it is set and not empty,
/// else below `HOME`, and nowhere where neither is set.
pub open spec fn data_home(env: Environment) -> Option<Path> {
    if env.data_home == Variable::Filled {
        Some((Base::DataHome, seq![]))
    } else if env.home != Variable::Unset {
        Some((Base::Home, seq![".local/share"@]))
    } else {
        None
    }
}

/// Where the desktop keeps configuration: `XDG_CONFIG_HOME` where it is set and
/// not empty, else below `HOME`, and nowhere where neither is set.
pub open spec fn config_home(env: Environment) -> Option<Path> {
    if env.config_home == Variable::Filled {
        Some((Base::ConfigHome, seq![]))
    } else if env.home != Variable::Unset {
        Some((Base::Home, seq![".config"@]))
    } else {
        None
    }
}

/// Where the desktop keeps data.
pub(crate) fn find_data_home(env: &Environment) -> (r: Option<Location>)
    ensures
        path_of(r) == data_home(*env),
{
    if env.data_home == Variable::Filled {
        Some(Location::at(Base::DataHome))
    } else if env.home != Variable::Unset {
        let r = Location::at(Base::Home).join(".local/share");
        assert(r@.1 =~= seq![".local/share"@]);
        Some(r)
    } else {
        None
    }
}

/// Where the desktop keeps configuration.
pub(crate) fn find_config_home(env: &Environment) -> (r: Option<Location>)
    ensures
        path_of(r) == config_home(*env),
{
    if env.config_home == Variable::Filled {
        Some(Location::at(Base::ConfigHome))
    } else if env.home != Variable::Unset {
        let r = Location::at(Base::Home).join(".config");
        assert(r@.1 =~= seq![".config"@]);
        Some(r)
    } else {
        None
    }
}

} // verus!
