use cplus::builder::{exe_name, join_path, split_words, Builder};
use cplus::checker::OwnershipChecker;
use cplus::cli::{init_main_source, init_config, project_name};
use cplus::codegen::Generator;
use cplus::config::{default_type, Build, Config, Dependency, Package, Profile};
use cplus::parser::Parser;
use cplus::report::{error_position, error_report, lines_text};
use cplus::transpiler::{file_action, is_skipped_dir, transpile_source, FileAction, TranspileError, Transpiler};

const HEADER: &str = "#include <stdio.h>\n#include <stdlib.h>\n#include <string.h>\n#include <stdbool.h>\n#include <pthread.h>\n\n";

fn check(src: &str) -> Result<(), String> {
    let mut p = Parser::new(src);
    let ast = p.parse().unwrap();
    let mut c = OwnershipChecker::new();
    c.check(&ast)
}

fn generate(src: &str) -> String {
    let mut p = Parser::new(src);
    let ast = p.parse().unwrap();
    let mut g = Generator::new();
    g.generate(&ast)
}

#[test]
fn checker_rejects_use_after_move() {
    let src = "int main() {\n    let int a = 1;\n    let int b = a;\n    return a;\n}";
    assert_eq!(check(src), Err("[4:12] Use of moved value: 'a'".to_string()));
}

#[test]
fn checker_accepts_clone_and_reads() {
    let src = "int main() { let T a; let T b = a.clone(); unsafe int n = a.x; return 0; }";
    assert_eq!(check(src), Ok(()));
}

#[test]
fn checker_rejects_move_of_borrowed_value() {
    let src = "int main() { let T d; alias T r = d; let T e = d; }";
    assert_eq!(check(src), Err("[1:48] Cannot move borrowed value: 'd'".to_string()));
}

#[test]
fn checker_releases_borrows_at_block_end() {
    let src = "int main() { let T d; { alias mut T r = d; } let T e = d; }";
    assert_eq!(check(src), Ok(()));
}

#[test]
fn checker_rejects_second_mutable_alias() {
    let src = "int main() { let T d; alias mut T r = d; alias mut T s = d; }";
    assert_eq!(check(src), Err("[1:42] Cannot mut-borrow value with active borrows: 'd'".to_string()));
}

#[test]
fn checker_rejects_immutable_alias_of_mutably_borrowed() {
    let src = "int main() { let T d; alias mut T r = d; alias T s = d; }";
    assert_eq!(check(src), Err("[1:42] Cannot imm-borrow mutably borrowed value: 'd'".to_string()));
}

#[test]
fn checker_rejects_write_to_borrowed_and_undefined() {
    let src = "int main() { let T d; alias T r = d; d = 1; }";
    assert_eq!(check(src), Err("[1:38] Cannot assign to borrowed value: 'd'".to_string()));
    assert_eq!(check("int main() { x = 1; }"), Err("[1:14] Undefined variable 'x'".to_string()));
}

#[test]
fn checker_merges_moves_of_branches() {
    let src = "int main() { let T a; if (c) { let T b = a; } let T z = a; }";
    assert_eq!(check("int main() { unsafe int c = 1; let T a; if (c) { let T b = a; } let T z = a; }"),
        Err("[1:75] Use of moved value: 'a'".to_string()));
    assert_eq!(check(src), Err("[1:27] Undefined variable 'c'".to_string()));
}

#[test]
fn generator_emits_struct_definition() {
    let out = generate("struct P { int x = 1; }");
    let expected = format!(
        "{}typedef struct P {{\n    int x;\n}} P;\n\nP P_clone(const P* source) {{\n    P dest;\n    dest.x = source->x;\n    return dest;\n}}\n\nvoid P_init_defaults(P* host) {{\n    host->x = 1;\n}}\n\n\n\n\n",
        HEADER
    );
    assert_eq!(out, expected);
}

#[test]
fn generator_destroys_before_return_and_maps_alias() {
    let src = "struct R { int id; }\nbind R { R(id) { host.id = id; } void destroy() { } }\nint main() { let R r.R(1); alias R a = r; return 0; }";
    let out = generate(src);
    let expected = format!(
        "{}typedef struct R {{\n    int id;\n}} R;\n\nR R_clone(const R* source) {{\n    R dest;\n    dest.id = source->id;\n    return dest;\n}}\n\nvoid R_init_defaults(R* host) {{\n    memset(&host->id, 0, sizeof(int));\n}}\n\n\n\nvoid R_init(R* host, int id) {{\n    host->id = id;\n}}\n\nvoid R_destroy(R* host) {{\n}}\n\nint main() {{\n    R r = {{0}};\n    R_init_defaults(&r);\n    R_init(&r, 1);\n    const R* a = &r;\n    R_destroy(&r);\n    return 0;\n}}\n\n\n",
        HEADER
    );
    assert_eq!(out, expected);
}

#[test]
fn generator_destroys_at_block_end() {
    let src = "struct R { int id; }\nbind R { void destroy() { } }\nint main() { { let R a; let R b; } }";
    let out = generate(src);
    assert!(out.contains("int main() {\n{\n        R a = {0};\n        R b = {0};\n        R_destroy(&b);\n        R_destroy(&a);\n    }}\n\n"));
}

#[test]
fn generator_emits_spawn_wrapper() {
    let src = "void work(int n) { }\nint main() { unsafe int k = 3; spawn work(k); return 0; }";
    let out = generate(src);
    let expected = format!(
        "{}typedef struct _spawn_args_0 {{\n    int arg0;\n}} _spawn_args_0;\nvoid* _spawn_wrapper_0(void* raw_arg);\n\n\n\nvoid work(int n) {{\n}}\n\nint main() {{\n    int k = 3;\n    {{\n        _spawn_args_0* spawn_args = malloc(sizeof(_spawn_args_0));\n        spawn_args->arg0 = k;\n        pthread_t thread_id;\n        pthread_create(&thread_id, NULL, _spawn_wrapper_0, spawn_args);\n        pthread_detach(thread_id);\n    }}\n    return 0;\n}}\n\n\nvoid* _spawn_wrapper_0(void* raw_arg) {{\n    _spawn_args_0* args = (_spawn_args_0*)raw_arg;\n    int val0 = args->arg0;\n    free(args);\n\n    work(val0);\n\n    return NULL;\n}}\n\n",
        HEADER
    );
    assert_eq!(out, expected);
}

#[test]
fn generator_fork_adds_and_removes_fields() {
    let out = generate("struct A { int x; int y; }\nfork A as B { + int z; - x; }");
    assert!(out.contains("typedef struct B {\n    int y;\n    int z;\n} B;\n"));
    assert!(out.contains("typedef struct A {\n    int x;\n    int y;\n} A;\n"));
}

#[test]
fn generator_translates_method_calls_and_clone() {
    let src = "struct V { int n; }\nint main() { let V v; let V w = v.clone(); v.push(3); return 0; }";
    let out = generate(src);
    assert!(out.contains("    V w = V_clone(&v);\n"));
    assert!(out.contains("    V_push(&v, 3);\n"));
}

#[test]
fn pipeline_reports_each_outcome() {
    let ok = transpile_source("struct P { int x = 1; }").unwrap();
    assert!(ok.starts_with(HEADER));
    match transpile_source("let 5;") {
        Err(TranspileError::Parse(_)) => {}
        other => panic!("unexpected {:?}", other),
    }
    match transpile_source("int main() { let T a; let T b = a; let T c = a; }") {
        Err(TranspileError::Ownership(m)) => assert_eq!(m, "[1:46] Use of moved value: 'a'"),
        other => panic!("unexpected {:?}", other),
    }
}

#[test]
fn file_actions_and_skipped_dirs() {
    let cp = "cp".to_string();
    let cph = "cph".to_string();
    let c = "c".to_string();
    let h = "h".to_string();
    let rs = "rs".to_string();
    assert_eq!(file_action(Some(&cp)), FileAction::Transpile);
    assert_eq!(file_action(Some(&cph)), FileAction::Transpile);
    assert_eq!(file_action(Some(&c)), FileAction::Copy);
    assert_eq!(file_action(Some(&h)), FileAction::Copy);
    assert_eq!(file_action(Some(&rs)), FileAction::Ignore);
    assert_eq!(file_action(None), FileAction::Ignore);
    assert!(is_skipped_dir(&".temp".to_string()));
    assert!(is_skipped_dir(&"build".to_string()));
    assert!(is_skipped_dir(&".git".to_string()));
    assert!(!is_skipped_dir(&"src".to_string()));
}

#[test]
fn transpiler_temp_dir() {
    let t = Transpiler::new("/proj".to_string());
    assert_eq!(t.temp_dir(), "/proj/.temp");
    assert_eq!(t.project_root(), "/proj");
    assert_eq!(Transpiler::new("/proj/".to_string()).temp_dir(), "/proj/.temp");
}

#[test]
fn error_position_reads_last_location() {
    assert_eq!(error_position("Ownership Error in x: [15:5] Use of moved value: 'd1'"), Some((15, 5)));
    assert_eq!(error_position("[1:2] then [3:4] x"), Some((3, 4)));
    assert_eq!(error_position("[1:2] then [3:x] x"), Some((1, 2)));
    assert_eq!(error_position("[1:2:3]"), None);
    assert_eq!(error_position("[12:]"), None);
    assert_eq!(error_position("no location"), None);
    assert_eq!(error_position("[99999999999999999999999:1]"), None);
}

#[test]
fn error_report_points_at_column() {
    let content = "int main() {\n    let int a = 1;\n    let int b = a;\n    return a;\n}";
    let r = error_report("main.cp", content, "[4:12] Use of moved value: 'a'");
    let pad = " ".repeat(19);
    let expected = format!(
        "\n\x1b[1;31mError\x1b[0m in main.cp:4:12\n     4 |     return a;\n{} \x1b[1;31m^\x1b[0m\n{} \x1b[1;31mUse of moved value: 'a'\x1b[0m\n\n",
        pad, pad
    );
    assert_eq!(r, expected);
}

#[test]
fn error_report_falls_back_to_message() {
    let r = error_report("m.cp", "one line", "[7:1] far away");
    assert_eq!(r, "\x1b[1;31mError\x1b[0m in m.cp: [7:1] far away\n");
    let r2 = error_report("m.cp", "x", "plain");
    assert_eq!(r2, "\x1b[1;31mError\x1b[0m in m.cp: plain\n");
}

#[test]
fn lines_follow_str_lines() {
    assert_eq!(lines_text("a\r\nb\n\nc"), vec!["a", "b", "", "c"]);
    assert_eq!(lines_text("a\n"), vec!["a"]);
    assert!(lines_text("").is_empty());
}

fn sample_config() -> Config {
    Config {
        package: Package { name: "app".to_string(), _version: "0.1.0".to_string(), _type: default_type() },
        build: Build {
            flags: vec!["-O2".to_string()],
            includes: vec!["inc".to_string()],
            lib_dirs: vec!["libs".to_string()],
            libs: vec!["m".to_string()],
        },
        profile: vec![
            ("debug".to_string(), Profile { flags: vec!["-g".to_string(), "-DDEBUG".to_string()], opt_level: Some(0) }),
            ("release".to_string(), Profile { flags: vec!["-DNDEBUG".to_string()], opt_level: Some(3) }),
        ],
        dependencies: vec![
            ("openssl".to_string(), Dependency::System { system: true, _version: Some("1.1".to_string()) }),
            ("local".to_string(), Dependency::Path { _path: "x".to_string() }),
        ],
    }
}

#[test]
fn builder_assembles_gcc_arguments() {
    let b = Builder::new("/proj".to_string(), sample_config());
    assert_eq!(b.temp_dir(), "/proj/.temp");
    assert_eq!(b.system_dependencies(), vec!["openssl".to_string()]);
    let sources = vec!["a.c".to_string()];
    let outs = vec![Some("-I/usr/include/openssl -lssl\n".to_string())];
    let debug = b.compile_args(true, &sources, &"/proj/build/debug/app".to_string(), &outs).unwrap();
    assert_eq!(
        debug,
        vec!["a.c", "-o", "/proj/build/debug/app", "-O2", "-I/proj/.temp", "-I/proj/inc", "-L/proj/libs", "-lm", "-g",
            "-DDEBUG", "-O0", "-I/usr/include/openssl", "-lssl"]
    );
    let release = b.compile_args(false, &sources, &"out".to_string(), &vec![None]).unwrap();
    assert_eq!(
        release,
        vec!["a.c", "-o", "out", "-O2", "-I/proj/.temp", "-I/proj/inc", "-L/proj/libs", "-lm", "-DNDEBUG", "-O3"]
    );
}

#[test]
fn builder_adds_debug_flag_when_missing() {
    let mut cfg = sample_config();
    cfg.profile = vec![];
    cfg.build.includes = vec!["/abs".to_string()];
    let b = Builder::new("".to_string(), cfg);
    assert_eq!(b.temp_dir(), ".temp");
    let args = b.compile_args(true, &vec!["m.c".to_string()], &"o".to_string(), &vec![]).unwrap();
    assert_eq!(args, vec!["m.c", "-o", "o", "-O2", "-I.temp", "-I/abs", "-Llibs", "-lm", "-g"]);
}

#[test]
fn builder_refuses_empty_sources() {
    let b = Builder::new("/p".to_string(), sample_config());
    assert_eq!(
        b.compile_args(false, &vec![], &"o".to_string(), &vec![]),
        Err("No source files found in .temp directory. Check your src/ folder.".to_string())
    );
}

#[test]
fn path_words_and_names() {
    assert_eq!(join_path(&"a".to_string(), &"b".to_string()), "a/b");
    assert_eq!(join_path(&"a/".to_string(), &"b".to_string()), "a/b");
    assert_eq!(join_path(&"a".to_string(), &"/b".to_string()), "/b");
    assert_eq!(split_words("  -la \t-lb\n"), vec!["-la", "-lb"]);
    assert_eq!(exe_name(&"app".to_string(), true), "app.exe");
    assert_eq!(exe_name(&"app".to_string(), false), "app");
}

#[test]
fn init_templates() {
    assert_eq!(project_name(None), "new_project");
    assert_eq!(project_name(Some("demo".to_string())), "demo");
    let m = init_config(&"demo".to_string());
    assert!(m.starts_with("[package]\nname = \"demo\"\nversion = \"0.1.0\"\n"));
    assert!(m.ends_with("[profile.release]\nopt_level = 3\n"));
    assert!(init_main_source().starts_with("struct demo { int a = 1; }"));
}
