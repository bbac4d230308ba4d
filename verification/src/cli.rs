//! The command line: what the user asked for, and the files `init` writes.
use vstd::prelude::*;
use crate::text::{append_str, string_from};

verus! {

/// The parsed command line.
#[derive(Debug)]
pub struct Cli {
    pub command: Commands,
}

#[derive(Debug)]
pub enum Commands {
    /// Build the C+ project.
    Build { debug: bool },
    /// Build and run the C+ project.
    Run { debug: bool },
    /// Initialize a new C+ project.
    Init { name: Option<String> },
}

/// The name of a new project: the one given, else `new_project`.
pub fn project_name(name: Option<String>) -> (r: String)
    ensures
        r@ == match name { Some(n) => n@, None => "new_project"@ },
{
    match name {
        Some(n) => n,
        None => string_from("new_project"),
    }
}

pub open spec fn config_head() -> Seq<char> {
    "[package]\nname = \""@
}

pub open spec fn config_tail() -> Seq<char> {
    "\"\nversion = \"0.1.0\"\ntype = \"bin\"\n\n[build]\nflags = [\"-Wall\"]\n\n[profile.debug]\nflags = [\"-g\"]\nopt_level = 0\n\n[profile.release]\nopt_level = 3\n"@
}

/// The `cplus.toml` of a new project named `name`.
pub fn init_config(name: &String) -> (r: String)
    ensures
        r@ == config_head() + name@ + config_tail(),
{
    let mut r = string_from("[package]\nname = \"");
    r.append(name.as_str());
    append_str(&mut r, "\"\nversion = \"0.1.0\"\ntype = \"bin\"\n\n[build]\nflags = [\"-Wall\"]\n\n[profile.debug]\nflags = [\"-g\"]\nopt_level = 0\n\n[profile.release]\nopt_level = 3\n");
    r
}

pub open spec fn main_source() -> Seq<char> {
    "struct demo { int a = 1; }\nbind demo { demo(n){ host.a = n; } }\nint main() { let demo d.demo(10); printf(\"Hello C+\\n\"); return 0; }"@
}

/// The `src/main.cp` of a new project.
pub fn init_main_source() -> (r: String)
    ensures
        r@ == main_source(),
{
    string_from("struct demo { int a = 1; }\nbind demo { demo(n){ host.a = n; } }\nint main() { let demo d.demo(10); printf(\"Hello C+\\n\"); return 0; }")
}

} // verus!
