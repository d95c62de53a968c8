use kj_build::definitions::{Definition, Definitions, PropagationError};
use kj_build::flags::resolve;
use kj_build::groups::{ConfigError, GroupId, SourceGroup};
use kj_build::link::LinkDirective;
use kj_build::pipeline::{abi_definitions, conclude, prepare, BuildError};
use kj_build::propagation::Store;
use kj_build::staging::StageError;
use kj_build::units::{capnp_unit, capnpc_unit, kj_unit, UnitDecl};

fn strings(list: &[&str]) -> Vec<String> {
    list.iter().map(|s| s.to_string()).collect()
}

fn name(s: &str) -> String {
    s.to_string()
}

fn defs(list: &[(&str, Option<&str>)]) -> Definitions {
    Definitions { entries: list.iter().map(|(k, v)| Definition::new(k, *v)).collect() }
}

#[test]
fn abi_definitions_of_the_flags() {
    assert_eq!(
        abi_definitions(&resolve(&strings(&["full-mode"]))),
        defs(&[("MODE", Some("full")), ("DIAG", Some("0"))])
    );
    assert_eq!(
        abi_definitions(&resolve(&strings(&["diagnostics"]))),
        defs(&[("MODE", Some("minimal")), ("DIAG", Some("1"))])
    );
}

#[test]
fn end_to_end_full_mode_without_diagnostics() {
    let mut store = Store::new();
    let capabilities = strings(&["full-mode"]);

    let kj = kj_unit();
    let plan = prepare(&kj, &capabilities, &store, &name(".."), &name("out/sources/kj")).unwrap();
    assert!(plan.configuration.flags.full);
    assert!(!plan.configuration.flags.diagnostics);
    assert_eq!(
        plan.configuration.definitions,
        defs(&[("MODE", Some("full")), ("DIAG", Some("0"))])
    );
    assert_eq!(plan.staged.len(), 35 + 21 + 6);
    for (i, file) in plan.staged.iter().enumerate() {
        assert!(file.destination.starts_with("out/sources/kj/"));
        assert!(file.source.starts_with("../"));
        assert_eq!(file.compiled, i >= 35);
        assert_eq!(file.source[3..], file.destination["out/sources/kj/".len()..]);
    }
    assert_eq!(plan.staged[0].source, "../arena.h");
    assert_eq!(plan.staged[35].destination, "out/sources/kj/arena.c++");
    assert_eq!(plan.staged[56].destination, "out/sources/kj/filesystem.c++");
    assert_eq!(plan.watched.len(), 2 * plan.staged.len());
    assert_eq!(plan.watched[0], "../arena.h");
    assert_eq!(plan.watched[1], "out/sources/kj/arena.h");
    assert_eq!(plan.links, vec![LinkDirective::Static(name("kj"))]);
    assert_eq!(store.read(&name("kj")), None);

    conclude(&mut store, &kj, &plan);
    assert_eq!(
        store.read(&name("kj")),
        Some(&defs(&[("MODE", Some("full")), ("DIAG", Some("0"))]))
    );

    let capnp = capnp_unit();
    let next = prepare(&capnp, &capabilities, &store, &name(".."), &name("out/sources/capnp"))
        .unwrap();
    assert_eq!(
        next.configuration.definitions,
        defs(&[("MODE", Some("full")), ("DIAG", Some("0"))])
    );
    assert_eq!(
        next.links,
        vec![LinkDirective::Static(name("capnp")), LinkDirective::Static(name("kj"))]
    );
    assert_eq!(next.staged.len(), 30 + 15);
    conclude(&mut store, &capnp, &next);

    let capnpc = capnpc_unit();
    let last = prepare(&capnpc, &capabilities, &store, &name("."), &name("out/sources/compiler"))
        .unwrap();
    assert_eq!(
        last.links,
        vec![
            LinkDirective::Static(name("capnpc")),
            LinkDirective::Static(name("capnp")),
            LinkDirective::Static(name("kj")),
        ]
    );
    assert_eq!(last.staged.len(), 12 + 12);
}

#[test]
fn prepare_rejects_a_downstream_unit_built_otherwise() {
    let mut store = Store::new();
    let kj = kj_unit();
    let plan = prepare(&kj, &strings(&["full-mode"]), &store, &name(".."), &name("out")).unwrap();
    conclude(&mut store, &kj, &plan);
    let r = prepare(&capnp_unit(), &Vec::new(), &store, &name(".."), &name("out"));
    assert_eq!(
        r,
        Err(BuildError::Propagation(PropagationError::Conflict {
            key: name("MODE"),
            expected: Some(name("full")),
            actual: Some(name("minimal")),
        }))
    );
    let r = prepare(
        &capnp_unit(),
        &strings(&["full-mode", "diagnostics"]),
        &store,
        &name(".."),
        &name("out"),
    );
    assert_eq!(
        r,
        Err(BuildError::Propagation(PropagationError::Conflict {
            key: name("DIAG"),
            expected: Some(name("0")),
            actual: Some(name("1")),
        }))
    );
}

#[test]
fn prepare_needs_the_upstream_publication() {
    let r = prepare(&capnp_unit(), &Vec::new(), &Store::new(), &name(".."), &name("out"));
    assert_eq!(
        r,
        Err(BuildError::Propagation(PropagationError::MissingPublication { unit: name("kj") }))
    );
}

#[test]
fn prepare_checks_the_import_before_the_groups() {
    let r = prepare(&capnp_unit(), &strings(&["schema-compiler"]), &Store::new(), &name(".."), &name("out"));
    assert_eq!(
        r,
        Err(BuildError::Propagation(PropagationError::MissingPublication { unit: name("kj") }))
    );
    let r = prepare(&kj_unit(), &strings(&["http"]), &Store::new(), &name(".."), &name("out"));
    assert_eq!(
        r,
        Err(BuildError::Config(ConfigError::MissingPrerequisite {
            group: GroupId::Http,
            needs: GroupId::AsyncIo
        }))
    );
}

#[test]
fn prepare_refuses_a_table_with_an_escaping_path() {
    let unit = UnitDecl {
        name: name("odd"),
        upstream: Vec::new(),
        groups: vec![SourceGroup {
            id: GroupId::Base,
            needs: Vec::new(),
            sources: strings(&["a.c", "../b.c"]),
            headers: strings(&["a.h"]),
        }],
    };
    let r = prepare(&unit, &Vec::new(), &Store::new(), &name("."), &name("out"));
    assert_eq!(r, Err(BuildError::Stage(StageError::Unconfined { path: name("../b.c") })));
}

#[test]
fn prepare_twice_gives_the_same_plan() {
    let store = Store::new();
    let caps = strings(&["async-io", "tls", "threads"]);
    let a = prepare(&kj_unit(), &caps, &store, &name(".."), &name("out")).unwrap();
    let b = prepare(&kj_unit(), &caps, &store, &name(".."), &name("out")).unwrap();
    assert_eq!(a, b);
}

#[test]
fn conclude_twice_leaves_one_publication() {
    let mut store = Store::new();
    let kj = kj_unit();
    let plan = prepare(&kj, &Vec::new(), &store, &name(".."), &name("out")).unwrap();
    conclude(&mut store, &kj, &plan);
    let once = store.clone();
    conclude(&mut store, &kj, &plan);
    assert_eq!(store, once);
}
