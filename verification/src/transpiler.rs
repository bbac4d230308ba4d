//! The translation of one C+ source: parse, check ownership, generate C; and the
//! decisions the project walk makes about each file.
use vstd::prelude::*;
use crate::ast::{Node, Statement, BindOp, StmtNodeV, stmt_node_view, stmts_view, func_view, funcs_view, bind_op_view, bind_ops_view};
use crate::parser::{Parser, ParseError, spec_tokens};
use crate::parser_spec::{sp_program, ParseErrorV};
use crate::checker::{OwnershipChecker, spec_check, alias_count, alias_count_seq, alias_count_fn, alias_count_fns, alias_count_ops};
use crate::codegen::{Generator, initial_gen};
use crate::codegen_spec::generate;
use crate::builder::{joined_path, join_path};
use crate::text::{string_from, str_is};

verus! {

/// The statements of a source text, or the first syntax error.
pub open spec fn spec_parse(src: Seq<char>) -> Result<Seq<StmtNodeV>, ParseErrorV> {
    sp_program(spec_tokens(src, 0), 0, seq![])
}

/// Why a source could not be translated.
#[derive(Debug)]
pub enum TranspileError {
    /// The source is not a C+ program.
    Parse(ParseError),
    /// The ownership check refused the program; the message locates the fault.
    Ownership(String),
    /// So many `alias` declarations that a borrow counter could overflow.
    TooManyAliases,
}

proof fn lemma_seq_count_mono(s: Seq<StmtNodeV>, j: int, i: int)
    requires
        0 <= j <= i,
    ensures
        alias_count_seq(s, j) >= alias_count_seq(s, i),
    decreases i - j,
{
    if j < i {
        lemma_seq_count_mono(s, j + 1, i);
    }
}

proof fn lemma_fns_count_mono(s: Seq<crate::ast::FunctionDefV>, j: int, i: int)
    requires
        0 <= j <= i,
    ensures
        alias_count_fns(s, j) >= alias_count_fns(s, i),
    decreases i - j,
{
    if j < i {
        lemma_fns_count_mono(s, j + 1, i);
    }
}

proof fn lemma_ops_count_mono(s: Seq<crate::ast::BindOpV>, j: int, i: int)
    requires
        0 <= j <= i,
    ensures
        alias_count_ops(s, j) >= alias_count_ops(s, i),
    decreases i - j,
{
    if j < i {
        lemma_ops_count_mono(s, j + 1, i);
    }
}

/// The number of `alias` declarations in a statement, or `None` past `usize::MAX`.
#[verifier::loop_isolation(false)]
fn count_aliases(n: &Node<Statement>) -> (r: Option<usize>)
    ensures
        match r {
            Some(k) => k == alias_count(stmt_node_view(*n)),
            None => alias_count(stmt_node_view(*n)) > usize::MAX,
        },
    decreases *n,
{
    match &n.data {
        Statement::AliasDeclaration(_) => Some(1),
        Statement::Block(stmts) => {
            let ghost sv = stmts_view(stmts@);
            assert(stmt_node_view(*n).data == crate::ast::StmtV::Block(sv));
            let mut total: usize = 0;
            let mut i: usize = stmts.len();
            while i > 0
                invariant
                    i <= stmts@.len(),
                    sv == stmts_view(stmts@),
                    total == alias_count_seq(sv, i as int),
                decreases i,
            {
                i = i - 1;
                assert(sv[i as int] == stmt_node_view(stmts@[i as int]));
                proof {
                    lemma_seq_count_mono(sv, 0, i as int);
                }
                match count_aliases(&stmts[i]) {
                    Some(k) => {
                        match total.checked_add(k) {
                            Some(t) => {
                                total = t;
                            },
                            None => {
                                return None;
                            },
                        }
                    },
                    None => {
                        return None;
                    },
                }
            }
            Some(total)
        },
        Statement::If { then_branch, else_branch, .. } => {
            let a = match count_aliases(then_branch) {
                Some(k) => k,
                None => { return None; },
            };
            let b = match else_branch {
                Some(eb) => match count_aliases(eb) {
                    Some(k) => k,
                    None => { return None; },
                },
                None => 0,
            };
            a.checked_add(b)
        },
        Statement::FunctionDef(f) => {
            assert(stmt_node_view(*n).data == crate::ast::StmtV::FunctionDef(func_view(*f)));
            assert(func_view(*f).body == Box::new(stmt_node_view(*f.body)));
            count_aliases(&f.body)
        },
        Statement::BindBlock(bind) => {
            let ghost fv = funcs_view(bind.functions@);
            assert(stmt_node_view(*n).data == crate::ast::StmtV::BindBlock(crate::ast::BindBlockV { struct_name: bind.struct_name@, functions: fv }));
            let mut total: usize = 0;
            let mut i: usize = bind.functions.len();
            while i > 0
                invariant
                    i <= bind.functions@.len(),
                    fv == funcs_view(bind.functions@),
                    total == alias_count_fns(fv, i as int),
                decreases i,
            {
                i = i - 1;
                assert(fv[i as int] == func_view(bind.functions@[i as int]));
                let f = &bind.functions[i];
                assert(func_view(*f).body == Box::new(stmt_node_view(*f.body)));
                assert(alias_count_fn(fv[i as int]) == alias_count(stmt_node_view(*f.body)));
                proof {
                    lemma_fns_count_mono(fv, 0, i as int);
                }
                match count_aliases(&f.body) {
                    Some(k) => {
                        match total.checked_add(k) {
                            Some(t) => {
                                total = t;
                            },
                            None => {
                                return None;
                            },
                        }
                    },
                    None => {
                        return None;
                    },
                }
            }
            Some(total)
        },
        Statement::ForkBlock(fork) => {
            let ghost ov = bind_ops_view(fork.bind_ops@);
            assert(stmt_node_view(*n).data == crate::ast::StmtV::ForkBlock(crate::ast::ForkBlockV {
                base_name: fork.base_name@,
                new_name: fork.new_name@,
                operations: crate::ast::fork_ops_view(fork.operations@),
                bind_ops: ov,
            }));
            let mut total: usize = 0;
            let mut i: usize = fork.bind_ops.len();
            while i > 0
                invariant
                    i <= fork.bind_ops@.len(),
                    ov == bind_ops_view(fork.bind_ops@),
                    total == alias_count_ops(ov, i as int),
                decreases i,
            {
                i = i - 1;
                assert(ov[i as int] == bind_op_view(fork.bind_ops@[i as int]));
                proof {
                    lemma_ops_count_mono(ov, 0, i as int);
                }
                let k = match &fork.bind_ops[i] {
                    BindOp::Add(f) => {
                        assert(func_view(*f).body == Box::new(stmt_node_view(*f.body)));
                        assert(alias_count_fn(func_view(*f)) == alias_count(stmt_node_view(*f.body)));
                        count_aliases(&f.body)
                    },
                    BindOp::Patch { new_fn_def, .. } => {
                        assert(func_view(*new_fn_def).body == Box::new(stmt_node_view(*new_fn_def.body)));
                        assert(alias_count_fn(func_view(*new_fn_def)) == alias_count(stmt_node_view(*new_fn_def.body)));
                        count_aliases(&new_fn_def.body)
                    },
                    BindOp::Remove(_) => Some(0),
                };
                match k {
                    Some(k) => {
                        match total.checked_add(k) {
                            Some(t) => {
                                total = t;
                            },
                            None => {
                                return None;
                            },
                        }
                    },
                    None => {
                        return None;
                    },
                }
            }
            Some(total)
        },
        Statement::While { body, .. } => count_aliases(body),
        Statement::For { init, body, .. } => {
            let a = match count_aliases(body) {
                Some(k) => k,
                None => { return None; },
            };
            let b = match init {
                Some(i) => match count_aliases(i) {
                    Some(k) => k,
                    None => { return None; },
                },
                None => 0,
            };
            a.checked_add(b)
        },
        _ => Some(0),
    }
}

/// The number of `alias` declarations in a program, or `None` past `usize::MAX`.
fn count_program_aliases(ast: &Vec<Node<Statement>>) -> (r: Option<usize>)
    ensures
        match r {
            Some(k) => k == alias_count_seq(stmts_view(ast@), 0),
            None => alias_count_seq(stmts_view(ast@), 0) > usize::MAX,
        },
{
    let ghost sv = stmts_view(ast@);
    let mut total: usize = 0;
    let mut i: usize = ast.len();
    while i > 0
        invariant
            i <= ast@.len(),
            sv == stmts_view(ast@),
            total == alias_count_seq(sv, i as int),
        decreases i,
    {
        i = i - 1;
        assert(sv[i as int] == stmt_node_view(ast@[i as int]));
        proof {
            lemma_seq_count_mono(sv, 0, i as int);
        }
        match count_aliases(&ast[i]) {
            Some(k) => {
                match total.checked_add(k) {
                    Some(t) => {
                        total = t;
                    },
                    None => {
                        return None;
                    },
                }
            },
            None => {
                return None;
            },
        }
    }
    Some(total)
}

/// Translates one C+ source into C: it is parsed, its ownership checked, and C generated.
pub fn transpile_source(content: &str) -> (r: Result<String, TranspileError>)
    requires
        content@.len() < usize::MAX,
    ensures
        match r {
            Ok(c) => spec_parse(content@) matches Ok(ast) && alias_count_seq(ast, 0) + 1 < usize::MAX
                && spec_check(ast) is Ok && c@ == generate(initial_gen(), ast).0,
            Err(TranspileError::Parse(e)) => spec_parse(content@) == Err::<Seq<StmtNodeV>, _>(e@),
            Err(TranspileError::TooManyAliases) => spec_parse(content@) matches Ok(ast)
                && alias_count_seq(ast, 0) + 1 >= usize::MAX,
            Err(TranspileError::Ownership(m)) => spec_parse(content@) matches Ok(ast)
                && alias_count_seq(ast, 0) + 1 < usize::MAX && spec_check(ast) == Err::<crate::checker::ScopesV, _>(m@),
        },
{
    let mut parser = Parser::new(content);
    let ast = match parser.parse() {
        Ok(a) => a,
        Err(e) => {
            return Err(TranspileError::Parse(e));
        },
    };
    match count_program_aliases(&ast) {
        Some(k) => {
            if k >= usize::MAX - 1 {
                return Err(TranspileError::TooManyAliases);
            }
        },
        None => {
            return Err(TranspileError::TooManyAliases);
        },
    }
    let mut checker = OwnershipChecker::new();
    match checker.check(ast.as_slice()) {
        Ok(_) => {},
        Err(m) => {
            return Err(TranspileError::Ownership(m));
        },
    }
    let mut generator = Generator::new();
    let out = generator.generate(ast.as_slice());
    Ok(out)
}

/// What the project walk does with a file, by its extension.
#[derive(Debug, Clone, Copy, PartialEq, Eq, Structural)]
pub enum FileAction {
    /// A C+ source (`.cp`, `.cph`): translated into `.temp`.
    Transpile,
    /// A C source or header (`.c`, `.h`): copied into `.temp`.
    Copy,
    /// Anything else is left alone.
    Ignore,
}

pub open spec fn action_for(ext: Option<Seq<char>>) -> FileAction {
    match ext {
        Some(e) => if e == "cp"@ || e == "cph"@ {
            FileAction::Transpile
        } else if e == "c"@ || e == "h"@ {
            FileAction::Copy
        } else {
            FileAction::Ignore
        },
        None => FileAction::Ignore,
    }
}

/// The action for a file with extension `ext`.
pub fn file_action(ext: Option<&String>) -> (r: FileAction)
    ensures
        r == action_for(match ext { Some(e) => Some(e@), None => None }),
{
    match ext {
        Some(e) => {
            if str_is(e, "cp") || str_is(e, "cph") {
                FileAction::Transpile
            } else if str_is(e, "c") || str_is(e, "h") {
                FileAction::Copy
            } else {
                FileAction::Ignore
            }
        },
        None => FileAction::Ignore,
    }
}

/// The walk does not descend into `.temp`, `build` or `.git`.
pub fn is_skipped_dir(name: &String) -> (r: bool)
    ensures
        r == (name@ == ".temp"@ || name@ == "build"@ || name@ == ".git"@),
{
    str_is(name, ".temp") || str_is(name, "build") || str_is(name, ".git")
}

/// Translates the C+ sources of a project into its `.temp` directory.
pub struct Transpiler {
    project_root: String,
    temp_dir: String,
}

impl Transpiler {
    pub closed spec fn root(&self) -> Seq<char> {
        self.project_root@
    }

    pub closed spec fn temp(&self) -> Seq<char> {
        self.temp_dir@
    }

    pub fn new(project_root: String) -> (r: Self)
        ensures
            r.root() == project_root@,
            r.temp() == joined_path(project_root@, ".temp"@),
    {
        let dot_temp = string_from(".temp");
        let temp_dir = join_path(&project_root, &dot_temp);
        Transpiler { project_root, temp_dir }
    }

    pub fn project_root(&self) -> (r: &String)
        ensures
            r@ == self.root(),
    {
        &self.project_root
    }

    pub fn temp_dir(&self) -> (r: &String)
        ensures
            r@ == self.temp(),
    {
        &self.temp_dir
    }
}

} // verus!
