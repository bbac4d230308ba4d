//! The project configuration read from `cplus.toml`.
use vstd::prelude::*;
use crate::text::string_from;

verus! {

/// The whole configuration. Tables keyed by name keep the order they were read in.
#[derive(Debug)]
pub struct Config {
    pub package: Package,
    pub build: Build,
    pub profile: Vec<(String, Profile)>,
    pub dependencies: Vec<(String, Dependency)>,
}

#[derive(Debug)]
pub struct Package {
    pub name: String,
    pub _version: String,
    pub _type: String,
}

#[derive(Debug)]
pub struct Build {
    pub flags: Vec<String>,
    pub includes: Vec<String>,
    pub lib_dirs: Vec<String>,
    pub libs: Vec<String>,
}

#[derive(Debug)]
pub struct Profile {
    pub flags: Vec<String>,
    pub opt_level: Option<u8>,
}

#[derive(Debug)]
pub enum Dependency {
    Path { _path: String },
    System { system: bool, _version: Option<String> },
}

impl Default for Config {
    /// An empty configuration: empty package fields, no flags, profiles or dependencies.
    fn default() -> (r: Self)
        ensures
            r.package.name@ == Seq::<char>::empty(),
            r.package._version@ == Seq::<char>::empty(),
            r.package._type@ == Seq::<char>::empty(),
            r.build.flags@ == Seq::<String>::empty(),
            r.build.includes@ == Seq::<String>::empty(),
            r.build.lib_dirs@ == Seq::<String>::empty(),
            r.build.libs@ == Seq::<String>::empty(),
            r.profile@ == Seq::<(String, Profile)>::empty(),
            r.dependencies@ == Seq::<(String, Dependency)>::empty(),
    {
        Config { package: Package::default(), build: Build::default(), profile: Vec::new(), dependencies: Vec::new() }
    }
}

impl Default for Package {
    /// A package with every field empty.
    fn default() -> (r: Self)
        ensures
            r.name@ == Seq::<char>::empty(),
            r._version@ == Seq::<char>::empty(),
            r._type@ == Seq::<char>::empty(),
    {
        Package { name: String::new(), _version: String::new(), _type: String::new() }
    }
}

impl Default for Build {
    /// No flags, include directories, library directories or libraries.
    fn default() -> (r: Self)
        ensures
            r.flags@ == Seq::<String>::empty(),
            r.includes@ == Seq::<String>::empty(),
            r.lib_dirs@ == Seq::<String>::empty(),
            r.libs@ == Seq::<String>::empty(),
    {
        Build { flags: Vec::new(), includes: Vec::new(), lib_dirs: Vec::new(), libs: Vec::new() }
    }
}

impl Default for Profile {
    /// No flags and no optimisation level.
    fn default() -> (r: Self)
        ensures
            r.flags@ == Seq::<String>::empty(),
            r.opt_level is None,
    {
        Profile { flags: Vec::new(), opt_level: None }
    }
}

/// The package type used when the configuration names none.
pub fn default_type() -> (r: String)
    ensures
        r@ == "bin"@,
{
    string_from("bin")
}

} // verus!
