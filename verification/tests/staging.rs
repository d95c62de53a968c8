use kj_build::flags::resolve;
use kj_build::link::{emit, watch_line, LinkDirective};
use kj_build::staging::{
    decide, is_confined, join_path, stage, watched_paths, Found, StageAction, StageError,
    StagedFile,
};

fn strings(list: &[&str]) -> Vec<String> {
    list.iter().map(|s| s.to_string()).collect()
}

fn name(s: &str) -> String {
    s.to_string()
}

#[test]
fn confined_paths() {
    for ok in ["a", "a/b.h", "parse/char.c++", "a..b", "..a", "a..", ".", "./a", "a/.../b", "c++.capnp.h"] {
        assert!(is_confined(&name(ok)), "{}", ok);
    }
    for bad in ["", "/", "/etc/passwd", "..", "../kj/miniposix.h", "a/..", "a/../b", "a/b/../../.."] {
        assert!(!is_confined(&name(bad)), "{}", bad);
    }
}

#[test]
fn join_path_puts_a_slash_between() {
    assert_eq!(join_path(&name("out/sources/kj"), &name("parse/char.h")), "out/sources/kj/parse/char.h");
    assert_eq!(join_path(&name(""), &name("a")), "/a");
    assert_eq!(join_path(&name(".."), &name("arena.h")), "../arena.h");
}

#[test]
fn stage_plans_one_file_per_entry() {
    let files = strings(&["arena.c++", "parse/char.c++"]);
    let staged = stage(&files, &name(".."), &name("out/sources/kj"), true).unwrap();
    assert_eq!(
        staged,
        vec![
            StagedFile {
                source: name("../arena.c++"),
                destination: name("out/sources/kj/arena.c++"),
                compiled: true,
            },
            StagedFile {
                source: name("../parse/char.c++"),
                destination: name("out/sources/kj/parse/char.c++"),
                compiled: true,
            },
        ]
    );
    let headers = stage(&strings(&["arena.h"]), &name(".."), &name("out"), false).unwrap();
    assert!(!headers[0].compiled);
    assert_eq!(stage(&Vec::new(), &name("a"), &name("b"), true), Ok(Vec::new()));
}

#[test]
fn stage_destinations_stay_below_the_root() {
    let files = strings(&["arena.c++", "compat/http.c++", "parse/char.c++"]);
    let staged = stage(&files, &name("src"), &name("out/kj"), true).unwrap();
    for file in staged.iter() {
        assert!(file.destination.starts_with("out/kj/"));
        assert!(is_confined(&file.destination["out/kj/".len()..].to_string()));
    }
}

#[test]
fn stage_refuses_the_first_path_that_escapes() {
    let files = strings(&["arena.h", "../kj/miniposix.h", "/abs.h"]);
    assert_eq!(
        stage(&files, &name(".."), &name("out"), false),
        Err(StageError::Unconfined { path: name("../kj/miniposix.h") })
    );
    assert_eq!(
        stage(&strings(&[""]), &name(".."), &name("out"), false),
        Err(StageError::Unconfined { path: name("") })
    );
}

#[test]
fn stage_twice_gives_the_same_plan() {
    let files = strings(&["a.c", "b/c.c"]);
    assert_eq!(
        stage(&files, &name("s"), &name("d"), true),
        stage(&files, &name("s"), &name("d"), true)
    );
}

#[test]
fn decide_skips_only_what_is_unchanged() {
    assert_eq!(decide(Found::Absent), StageAction::Copy);
    assert_eq!(decide(Found::Different), StageAction::Copy);
    assert_eq!(decide(Found::Same), StageAction::Skip);
}

#[test]
fn watched_paths_name_source_and_copy_of_every_file() {
    let staged = stage(&strings(&["a.h", "b.h"]), &name("src"), &name("out"), false).unwrap();
    assert_eq!(
        watched_paths(&staged),
        strings(&["src/a.h", "out/a.h", "src/b.h", "out/b.h"])
    );
    assert_eq!(watched_paths(&Vec::new()), Vec::<String>::new());
    assert_eq!(watch_line(&name("src/a.h")), "cargo:rerun-if-changed=src/a.h");
}

#[test]
fn emit_for_the_base_unit() {
    let flags = resolve(&strings(&["threads"]));
    assert_eq!(
        emit(&name("kj"), &Vec::new(), &flags),
        vec![LinkDirective::Static(name("kj")), LinkDirective::System(name("pthread"))]
    );
    assert_eq!(
        emit(&name("kj"), &Vec::new(), &resolve(&Vec::new())),
        vec![LinkDirective::Static(name("kj"))]
    );
}

#[test]
fn emit_for_a_downstream_unit() {
    let flags = resolve(&strings(&["dynamic-loading", "threads", "full-mode"]));
    assert_eq!(
        emit(&name("capnpc"), &strings(&["capnp", "kj"]), &flags),
        vec![
            LinkDirective::Static(name("capnpc")),
            LinkDirective::Static(name("capnp")),
            LinkDirective::Static(name("kj")),
            LinkDirective::System(name("pthread")),
            LinkDirective::System(name("dl")),
        ]
    );
    let flags = resolve(&strings(&["dynamic-loading"]));
    assert_eq!(
        emit(&name("capnp"), &strings(&["kj"]), &flags),
        vec![
            LinkDirective::Static(name("capnp")),
            LinkDirective::Static(name("kj")),
            LinkDirective::System(name("dl")),
        ]
    );
}

#[test]
fn emit_twice_gives_the_same_order() {
    let flags = resolve(&strings(&["threads", "dynamic-loading"]));
    let up = strings(&["capnp", "kj"]);
    assert_eq!(emit(&name("capnpc"), &up, &flags), emit(&name("capnpc"), &up, &flags));
}

#[test]
fn link_lines() {
    assert_eq!(LinkDirective::Static(name("kj")).line(), "cargo:rustc-link-lib=static=kj");
    assert_eq!(LinkDirective::System(name("pthread")).line(), "cargo:rustc-link-lib=pthread");
}

fn carry_out(
    plan: &[StagedFile],
    sources: &std::collections::HashMap<String, Vec<u8>>,
    tree: &mut std::collections::HashMap<String, Vec<u8>>,
) -> Vec<StageAction> {
    let mut actions = Vec::new();
    for file in plan {
        let wanted = &sources[&file.source];
        let found = match tree.get(&file.destination) {
            None => Found::Absent,
            Some(present) if present == wanted => Found::Same,
            Some(_) => Found::Different,
        };
        let action = decide(found);
        if action == StageAction::Copy {
            tree.insert(file.destination.clone(), wanted.clone());
        }
        actions.push(action);
    }
    actions
}

#[test]
fn staging_again_copies_nothing() {
    let files = strings(&["a.c", "b/c.c", "d.c"]);
    let plan = stage(&files, &name("src"), &name("out"), true).unwrap();
    let mut sources = std::collections::HashMap::new();
    sources.insert(name("src/a.c"), b"alpha".to_vec());
    sources.insert(name("src/b/c.c"), b"beta".to_vec());
    sources.insert(name("src/d.c"), b"delta".to_vec());
    let mut tree = std::collections::HashMap::new();
    tree.insert(name("out/a.c"), b"alpha".to_vec());
    tree.insert(name("out/d.c"), b"stale".to_vec());
    tree.insert(name("out/other"), b"kept".to_vec());

    let first = carry_out(&plan, &sources, &mut tree);
    assert_eq!(first, vec![StageAction::Skip, StageAction::Copy, StageAction::Copy]);
    let once = tree.clone();
    assert_eq!(once.len(), 4);
    assert_eq!(once["out/b/c.c"], b"beta".to_vec());
    assert_eq!(once["out/d.c"], b"delta".to_vec());
    assert_eq!(once["out/other"], b"kept".to_vec());

    let second = carry_out(&plan, &sources, &mut tree);
    assert_eq!(second, vec![StageAction::Skip; 3]);
    assert_eq!(tree, once);
}
