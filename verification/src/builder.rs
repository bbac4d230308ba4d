//! The build step: which arguments gcc is run with.
use vstd::prelude::*;
use crate::config::{Config, Dependency};
use crate::codegen::{strings_view, key_texts, find_key};
use crate::codegen_spec::first_pos;
use crate::text::{decimal, append_decimal, append_str, string_from, push_char, chars_of, char_is_whitespace, unicode_white_space};

verus! {

/// Joins a relative path onto a base the way a Unix path join does: an absolute path
/// replaces the base, and one `/` separates the two.
pub open spec fn joined_path(base: Seq<char>, rel: Seq<char>) -> Seq<char> {
    if rel.len() > 0 && rel[0] == '/' {
        rel
    } else if base.len() == 0 {
        rel
    } else if base.last() == '/' {
        base + rel
    } else {
        base + seq!['/'] + rel
    }
}

pub fn join_path(base: &String, rel: &String) -> (r: String)
    ensures
        r@ == joined_path(base@, rel@),
{
    let b = chars_of(base.as_str());
    let rl = chars_of(rel.as_str());
    if rl.len() > 0 && rl[0] == '/' {
        return rel.clone();
    }
    if b.len() == 0 {
        return rel.clone();
    }
    let mut r = base.clone();
    if b[b.len() - 1] != '/' {
        push_char(&mut r, '/');
    }
    r.append(rel.as_str());
    r
}

/// The words of `s`: its maximal runs of characters that are not white space, from `i` on,
/// `cur` being the part of a word already read.
pub open spec fn words_from(s: Seq<char>, i: int, cur: Seq<char>) -> Seq<Seq<char>>
    decreases s.len() - i,
{
    if i < 0 || i >= s.len() {
        if cur.len() > 0 { seq![cur] } else { Seq::empty() }
    } else if unicode_white_space(s[i]) {
        (if cur.len() > 0 { seq![cur] } else { Seq::empty() }) + words_from(s, i + 1, Seq::empty())
    } else {
        words_from(s, i + 1, cur.push(s[i]))
    }
}

pub open spec fn words(s: Seq<char>) -> Seq<Seq<char>> {
    words_from(s, 0, Seq::empty())
}

/// The whitespace-separated words of `s`.
pub fn split_words(s: &str) -> (r: Vec<String>)
    ensures
        strings_view(r@) == words(s@),
{
    let v = chars_of(s);
    let mut r: Vec<String> = Vec::new();
    let mut cur = String::new();
    let mut started = false;
    let mut i: usize = 0;
    while i < v.len()
        invariant
            i <= v@.len(),
            v@ == s@,
            started == (cur@.len() > 0),
            strings_view(r@) + words_from(v@, i as int, cur@) == words(s@),
        decreases v.len() - i,
    {
        let ghost before = strings_view(r@);
        let ghost c0 = cur@;
        if char_is_whitespace(v[i]) {
            if started {
                r.push(cur);
                assert(strings_view(r@) =~= before.push(c0));
                assert(before + (seq![c0] + words_from(v@, i + 1, Seq::empty())) =~= before.push(c0) + words_from(v@, i + 1, Seq::empty()));
            } else {
                assert(c0.len() == 0);
                assert(before + (Seq::<Seq<char>>::empty() + words_from(v@, i + 1, Seq::empty())) =~= before + words_from(v@, i + 1, Seq::empty()));
            }
            cur = String::new();
            started = false;
            assert(cur@ =~= Seq::<char>::empty());
        } else {
            push_char(&mut cur, v[i]);
            started = true;
        }
        i = i + 1;
    }
    if started {
        let ghost before = strings_view(r@);
        let ghost c0 = cur@;
        r.push(cur);
        assert(strings_view(r@) =~= before.push(c0));
        assert(before + seq![c0] =~= before.push(c0));
    } else {
        assert(strings_view(r@) + Seq::<Seq<char>>::empty() =~= strings_view(r@));
    }
    r
}

pub open spec fn profile_name(debug: bool) -> Seq<char> {
    if debug { "debug"@ } else { "release"@ }
}

/// The name of the build profile: `debug` or `release`.
pub fn profile_name_of(debug: bool) -> (r: String)
    ensures
        r@ == profile_name(debug),
{
    if debug { string_from("debug") } else { string_from("release") }
}

/// The executable's file name: the package name, with `.exe` on Windows.
pub fn exe_name(name: &String, windows: bool) -> (r: String)
    ensures
        r@ == if windows { name@ + ".exe"@ } else { name@ },
{
    let mut r = name.clone();
    if windows {
        append_str(&mut r, ".exe");
    }
    r
}

pub open spec fn prefixed(p: Seq<char>, s: Seq<Seq<char>>) -> Seq<Seq<char>> {
    Seq::new(s.len(), |i: int| p + s[i])
}

pub open spec fn joined_all(p: Seq<char>, root: Seq<char>, s: Seq<Seq<char>>) -> Seq<Seq<char>> {
    Seq::new(s.len(), |i: int| p + joined_path(root, s[i]))
}

/// The words of every pkg-config output that succeeded, in order.
pub open spec fn pkg_words(outs: Seq<Option<Seq<char>>>) -> Seq<Seq<char>>
    decreases outs.len(),
{
    if outs.len() == 0 {
        Seq::empty()
    } else {
        pkg_words(outs.drop_last()) + match outs.last() {
            Some(o) => words(o),
            None => Seq::empty(),
        }
    }
}

/// Adding a dependency adds the words of its pkg-config output, if it succeeded, at the end.
pub proof fn law_pkg_words_push(outs: Seq<Option<Seq<char>>>, o: Option<Seq<char>>)
    ensures
        pkg_words(outs.push(o)) == pkg_words(outs) + match o {
            Some(x) => words(x),
            None => Seq::empty(),
        },
{
    assert(outs.push(o).drop_last() =~= outs);
}

/// Every word of every successful pkg-config output is among the collected words.
pub proof fn lemma_pkg_words_has(outs: Seq<Option<Seq<char>>>, i: int, j: int)
    requires
        0 <= i < outs.len(),
        outs[i] is Some,
        0 <= j < words(outs[i]->0).len(),
    ensures
        exists|k: int| 0 <= k < pkg_words(outs).len() && pkg_words(outs)[k] == words(outs[i]->0)[j],
    decreases outs.len(),
{
    let d = outs.drop_last();
    let p = pkg_words(d);
    if i == outs.len() - 1 {
        let k = p.len() + j;
        assert(pkg_words(outs)[k] == words(outs[i]->0)[j]);
    } else {
        assert(d[i] == outs[i]);
        lemma_pkg_words_has(d, i, j);
        let k = choose|k: int| 0 <= k < p.len() && p[k] == words(outs[i]->0)[j];
        assert(pkg_words(outs)[k] == p[k]);
    }
}

pub open spec fn opt_views(s: Seq<Option<String>>) -> Seq<Option<Seq<char>>> {
    Seq::new(s.len(), |i: int| match s[i] { Some(x) => Some(x@), None => None })
}

pub open spec fn no_sources_msg() -> Seq<char> {
    "No source files found in .temp directory. Check your src/ folder."@
}

/// Builds a project from the C files of its `.temp` directory.
pub struct Builder {
    project_root: String,
    temp_dir: String,
    config: Config,
}

impl Builder {
    pub closed spec fn root(&self) -> Seq<char> {
        self.project_root@
    }

    pub closed spec fn temp(&self) -> Seq<char> {
        self.temp_dir@
    }

    /// The names of the dependencies that pkg-config is asked about: the system ones, in order.
    pub open spec fn system_deps(&self) -> Seq<Seq<char>> {
        system_deps_of(self.configuration().dependencies@)
    }

    /// The flags and the `-O` level of the profile, if the configuration has it.
    pub open spec fn profile_args(&self, name: Seq<char>) -> Seq<Seq<char>> {
        let p = first_pos(key_texts(self.configuration().profile@), name);
        if p >= 0 {
            let prof = self.configuration().profile@[p].1;
            strings_view(prof.flags@) + match prof.opt_level {
                Some(o) => seq!["-O"@ + decimal(o as nat)],
                None => Seq::empty(),
            }
        } else {
            Seq::empty()
        }
    }

    /// The arguments gcc is run with: the sources, the output, the global flags, the include
    /// paths (`.temp` first), the library paths and libraries, the profile's flags and level,
    /// the pkg-config flags, and `-g` for a debug build that has none.
    pub open spec fn gcc_args(
        &self,
        debug: bool,
        sources: Seq<Seq<char>>,
        exe: Seq<char>,
        outs: Seq<Option<Seq<char>>>,
    ) -> Seq<Seq<char>> {
        let b = self.configuration().build;
        let a = sources + seq!["-o"@, exe] + strings_view(b.flags@) + seq!["-I"@ + self.temp()]
            + joined_all("-I"@, self.root(), strings_view(b.includes@))
            + joined_all("-L"@, self.root(), strings_view(b.lib_dirs@))
            + prefixed("-l"@, strings_view(b.libs@)) + self.profile_args(profile_name(debug)) + pkg_words(outs);
        if debug && !a.contains("-g"@) { a.push("-g"@) } else { a }
    }

    /// A release build's gcc arguments end with the words of every successful pkg-config
    /// output, in dependency order, so every such word reaches gcc.
    pub proof fn law_release_build_ends_with_pkg_words(
        &self,
        sources: Seq<Seq<char>>,
        exe: Seq<char>,
        outs: Seq<Option<Seq<char>>>,
    )
        ensures
            ({
                let a = self.gcc_args(false, sources, exe, outs);
                let w = pkg_words(outs);
                &&& w.len() <= a.len()
                &&& a.skip(a.len() - w.len()) == w
                &&& forall|i: int, j: int| 0 <= i < outs.len() && outs[i] is Some && 0 <= j < words(outs[i]->0).len()
                    ==> a.contains(words(outs[i]->0)[j])
            }),
    {
        let a = self.gcc_args(false, sources, exe, outs);
        let w = pkg_words(outs);
        let b = self.configuration().build;
        let pre = sources + seq!["-o"@, exe] + strings_view(b.flags@) + seq!["-I"@ + self.temp()]
            + joined_all("-I"@, self.root(), strings_view(b.includes@))
            + joined_all("-L"@, self.root(), strings_view(b.lib_dirs@))
            + prefixed("-l"@, strings_view(b.libs@)) + self.profile_args(profile_name(false));
        assert(a == pre + w);
        assert(a.skip(a.len() - w.len()) =~= w);
        assert forall|i: int, j: int| 0 <= i < outs.len() && outs[i] is Some && 0 <= j < words(outs[i]->0).len()
            implies a.contains(words(outs[i]->0)[j]) by {
            let o = outs[i]->0;
            lemma_pkg_words_has(outs, i, j);
            let k = choose|k: int| 0 <= k < w.len() && w[k] == words(o)[j];
            assert(a[pre.len() + k] == words(o)[j]);
        }
    }

    /// Every debug build passes `-g` to gcc, whatever the configuration says.
    pub proof fn law_debug_build_has_g(&self, sources: Seq<Seq<char>>, exe: Seq<char>, outs: Seq<Option<Seq<char>>>)
        ensures
            self.gcc_args(true, sources, exe, outs).contains("-g"@),
    {
        let b = self.configuration().build;
        let a = sources + seq!["-o"@, exe] + strings_view(b.flags@) + seq!["-I"@ + self.temp()]
            + joined_all("-I"@, self.root(), strings_view(b.includes@))
            + joined_all("-L"@, self.root(), strings_view(b.lib_dirs@))
            + prefixed("-l"@, strings_view(b.libs@)) + self.profile_args(profile_name(true)) + pkg_words(outs);
        if !a.contains("-g"@) {
            assert(a.push("-g"@)[a.len() as int] == "-g"@);
        }
    }

    pub fn new(project_root: String, config: Config) -> (r: Self)
        ensures
            r.configuration() == config,
            r.root() == project_root@,
            r.temp() == joined_path(project_root@, ".temp"@),
    {
        let dot_temp = string_from(".temp");
        let temp_dir = join_path(&project_root, &dot_temp);
        Builder { project_root, temp_dir, config }
    }

    pub closed spec fn configuration(&self) -> Config {
        self.config
    }

    pub fn config(&self) -> (r: &Config)
        ensures
            *r == self.configuration(),
    {
        &self.config
    }

    pub fn project_root(&self) -> (r: &String)
        ensures
            r@ == self.root(),
    {
        &self.project_root
    }

    pub fn temp_dir(&self) -> (r: &String)
        ensures
            r@ == self.temp(),
    {
        &self.temp_dir
    }

    /// The names of the system dependencies, in order.
    pub fn system_dependencies(&self) -> (r: Vec<String>)
        ensures
            strings_view(r@) == self.system_deps(),
    {
        let deps = &self.config.dependencies;
        let mut r: Vec<String> = Vec::new();
        let mut i: usize = 0;
        while i < deps.len()
            invariant
                i <= deps@.len(),
                deps == self.config.dependencies,
                strings_view(r@) == system_deps_of(deps@.take(i as int)),
            decreases deps.len() - i,
        {
            assert(deps@.take(i + 1).drop_last() =~= deps@.take(i as int));
            assert(deps@.take(i + 1).last() == deps@[i as int]);
            match &deps[i].1 {
                Dependency::System { system: true, .. } => {
                    let ghost before = strings_view(r@);
                    r.push(deps[i].0.clone());
                    assert(strings_view(r@) =~= before.push(deps@[i as int].0@));
                },
                _ => {},
            }
            i = i + 1;
        }
        assert(deps@.take(i as int) =~= deps@);
        r
    }

    /// The gcc arguments for building `sources` into `output_exe`; `pkg_outputs` holds, for
    /// each system dependency in order, what pkg-config printed, or nothing where it failed.
    /// Without sources there is nothing to build.
    pub fn compile_args(
        &self,
        debug: bool,
        sources: &Vec<String>,
        output_exe: &String,
        pkg_outputs: &Vec<Option<String>>,
    ) -> (r: Result<Vec<String>, String>)
        ensures
            match r {
                Ok(v) => sources@.len() > 0
                    && strings_view(v@) == self.gcc_args(debug, strings_view(sources@), output_exe@, opt_views(pkg_outputs@)),
                Err(m) => sources@.len() == 0 && m@ == no_sources_msg(),
            },
    {
        if sources.len() == 0 {
            return Err(string_from("No source files found in .temp directory. Check your src/ folder."));
        }
        let b = &self.config.build;
        let mut a: Vec<String> = Vec::new();
        push_all(&mut a, sources);
        let ghost s0 = strings_view(a@);
        a.push(string_from("-o"));
        a.push(output_exe.clone());
        assert(strings_view(a@) =~= s0 + seq!["-o"@, output_exe@]);
        push_all(&mut a, &b.flags);
        let ghost s1 = strings_view(a@);
        let mut t = string_from("-I");
        t.append(self.temp_dir.as_str());
        a.push(t);
        assert(strings_view(a@) =~= s1 + seq!["-I"@ + self.temp_dir@]);
        push_joined(&mut a, "-I", &self.project_root, &b.includes);
        push_joined(&mut a, "-L", &self.project_root, &b.lib_dirs);
        push_prefixed(&mut a, "-l", &b.libs);
        let pname = profile_name_of(debug);
        let ghost s2 = strings_view(a@);
        let ghost pk = key_texts(self.config.profile@);
        match find_key(&self.config.profile, &pname) {
            Some(p) => {
                let prof = &self.config.profile[p].1;
                push_all(&mut a, &prof.flags);
                match prof.opt_level {
                    Some(o) => {
                        let ghost s3 = strings_view(a@);
                        let mut f = string_from("-O");
                        append_decimal(&mut f, o as usize);
                        a.push(f);
                        assert(strings_view(a@) =~= s3 + seq!["-O"@ + decimal(o as nat)]);
                    },
                    None => {
                        assert(strings_view(a@) =~= strings_view(a@) + Seq::<Seq<char>>::empty());
                    },
                }
            },
            None => {},
        }
        assert(strings_view(a@) =~= s2 + self.profile_args(profile_name(debug)));
        let ghost s4 = strings_view(a@);
        let ghost ov = opt_views(pkg_outputs@);
        let mut k: usize = 0;
        while k < pkg_outputs.len()
            invariant
                k <= pkg_outputs@.len(),
                ov == opt_views(pkg_outputs@),
                strings_view(a@) == s4 + pkg_words(ov.take(k as int)),
            decreases pkg_outputs.len() - k,
        {
            assert(ov.take(k + 1).drop_last() =~= ov.take(k as int));
            assert(ov.take(k + 1).last() == ov[k as int]);
            match &pkg_outputs[k] {
                Some(out) => {
                    let ws = split_words(out.as_str());
                    push_all(&mut a, &ws);
                },
                None => {},
            }
            assert(strings_view(a@) =~= s4 + pkg_words(ov.take(k + 1)));
            k = k + 1;
        }
        assert(ov.take(k as int) =~= ov);
        if debug {
            let g = string_from("-g");
            if !contains_text(&a, &g) {
                a.push(g);
            }
        }
        Ok(a)
    }
}

/// The names of the dependencies marked `system = true`, in order.
pub open spec fn system_deps_of(deps: Seq<(String, Dependency)>) -> Seq<Seq<char>>
    decreases deps.len(),
{
    if deps.len() == 0 {
        Seq::empty()
    } else {
        system_deps_of(deps.drop_last()) + match deps.last().1 {
            Dependency::System { system: true, .. } => seq![deps.last().0@],
            _ => Seq::empty(),
        }
    }
}

fn push_all(v: &mut Vec<String>, s: &Vec<String>)
    ensures
        strings_view(final(v)@) == strings_view(old(v)@) + strings_view(s@),
{
    let ghost v0 = strings_view(v@);
    let mut i: usize = 0;
    while i < s.len()
        invariant
            i <= s@.len(),
            strings_view(v@) == v0 + strings_view(s@).take(i as int),
        decreases s.len() - i,
    {
        let ghost before = strings_view(v@);
        let e = s[i].clone();
        v.push(e);
        assert(strings_view(v@) =~= before.push(s@[i as int]@));
        assert(strings_view(s@).take(i + 1) =~= strings_view(s@).take(i as int).push(s@[i as int]@));
        i = i + 1;
    }
    assert(strings_view(s@).take(i as int) =~= strings_view(s@));
}

fn push_prefixed(v: &mut Vec<String>, p: &str, s: &Vec<String>)
    ensures
        strings_view(final(v)@) == strings_view(old(v)@) + prefixed(p@, strings_view(s@)),
{
    let ghost v0 = strings_view(v@);
    let ghost all = prefixed(p@, strings_view(s@));
    let mut i: usize = 0;
    while i < s.len()
        invariant
            i <= s@.len(),
            all == prefixed(p@, strings_view(s@)),
            strings_view(v@) == v0 + all.take(i as int),
        decreases s.len() - i,
    {
        let ghost before = strings_view(v@);
        let mut e = string_from(p);
        e.append(s[i].as_str());
        v.push(e);
        assert(strings_view(v@) =~= before.push(all[i as int]));
        assert(all.take(i + 1) =~= all.take(i as int).push(all[i as int]));
        i = i + 1;
    }
    assert(all.take(i as int) =~= all);
}

fn push_joined(v: &mut Vec<String>, p: &str, root: &String, s: &Vec<String>)
    ensures
        strings_view(final(v)@) == strings_view(old(v)@) + joined_all(p@, root@, strings_view(s@)),
{
    let ghost v0 = strings_view(v@);
    let ghost all = joined_all(p@, root@, strings_view(s@));
    let mut i: usize = 0;
    while i < s.len()
        invariant
            i <= s@.len(),
            all == joined_all(p@, root@, strings_view(s@)),
            strings_view(v@) == v0 + all.take(i as int),
        decreases s.len() - i,
    {
        let ghost before = strings_view(v@);
        let mut e = string_from(p);
        let j = join_path(root, &s[i]);
        e.append(j.as_str());
        v.push(e);
        assert(strings_view(v@) =~= before.push(all[i as int]));
        assert(all.take(i + 1) =~= all.take(i as int).push(all[i as int]));
        i = i + 1;
    }
    assert(all.take(i as int) =~= all);
}

fn contains_text(v: &Vec<String>, k: &String) -> (r: bool)
    ensures
        r == strings_view(v@).contains(k@),
{
    crate::codegen::contains_string(v, k)
}

} // verus!
