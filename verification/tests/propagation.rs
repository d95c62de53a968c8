use kj_build::definitions::{
    copy_value, join, same_value, Definition, Definitions, PropagationError,
};
use kj_build::propagation::{import, Store};

fn defs(list: &[(&str, Option<&str>)]) -> Definitions {
    Definitions { entries: list.iter().map(|(k, v)| Definition::new(k, *v)).collect() }
}

fn name(s: &str) -> String {
    s.to_string()
}

#[test]
fn definition_new_and_copy() {
    let d = Definition::new("MODE", Some("full"));
    assert_eq!(d.key, "MODE");
    assert_eq!(d.value, Some(name("full")));
    assert_eq!(d.copy(), d);
    let bare = Definition::new("CAPNP_LITE", None);
    assert_eq!(bare.value, None);
    assert_eq!(bare.copy(), bare);
}

#[test]
fn values_compare_by_text() {
    assert!(same_value(&Some(name("1")), &Some(name("1"))));
    assert!(!same_value(&Some(name("1")), &Some(name("0"))));
    assert!(!same_value(&Some(name("")), &None));
    assert!(same_value(&None, &None));
    assert_eq!(copy_value(&Some(name("x"))), Some(name("x")));
    assert_eq!(copy_value(&None), None);
}

#[test]
fn define_appends_a_new_name() {
    let mut d = Definitions::new();
    assert!(d.entries.is_empty());
    assert_eq!(d.define(&Definition::new("X", Some("1"))), Ok(()));
    assert_eq!(d.define(&Definition::new("Y", None)), Ok(()));
    assert_eq!(d, defs(&[("X", Some("1")), ("Y", None)]));
    assert_eq!(d.get(&name("X")), Some(&Some(name("1"))));
    assert_eq!(d.get(&name("Y")), Some(&None));
    assert_eq!(d.get(&name("Z")), None);
}

#[test]
fn define_the_same_again_changes_nothing() {
    let mut d = defs(&[("X", Some("1"))]);
    assert_eq!(d.define(&Definition::new("X", Some("1"))), Ok(()));
    assert_eq!(d, defs(&[("X", Some("1"))]));
}

#[test]
fn define_another_value_is_a_conflict() {
    let mut d = defs(&[("X", Some("1"))]);
    assert_eq!(
        d.define(&Definition::new("X", None)),
        Err(PropagationError::Conflict { key: name("X"), expected: Some(name("1")), actual: None })
    );
    assert_eq!(d, defs(&[("X", Some("1"))]));
}

#[test]
fn join_is_the_union_base_first() {
    let base = defs(&[("X", Some("1")), ("Y", Some("0"))]);
    let extra = defs(&[("Z", None), ("X", Some("1")), ("W", Some(""))]);
    assert_eq!(
        join(&base, &extra),
        Ok(defs(&[("X", Some("1")), ("Y", Some("0")), ("Z", None), ("W", Some(""))]))
    );
    assert_eq!(join(&base, &Definitions::new()), Ok(base.copy()));
    assert_eq!(join(&Definitions::new(), &extra), Ok(extra.copy()));
}

#[test]
fn join_reports_the_first_conflict() {
    let base = defs(&[("X", Some("1")), ("Y", Some("0"))]);
    let extra = defs(&[("Z", None), ("Y", Some("1")), ("X", Some("2"))]);
    assert_eq!(
        join(&base, &extra),
        Err(PropagationError::Conflict {
            key: name("Y"),
            expected: Some(name("0")),
            actual: Some(name("1")),
        })
    );
}

#[test]
fn store_reads_what_was_published() {
    let mut store = Store::new();
    assert_eq!(store.read(&name("kj")), None);
    let a = defs(&[("MODE", Some("full"))]);
    let b = defs(&[("MODE", Some("full")), ("DIAG", Some("0"))]);
    store.publish(&name("kj"), &a);
    store.publish(&name("capnp"), &b);
    assert_eq!(store.read(&name("kj")), Some(&a));
    assert_eq!(store.read(&name("capnp")), Some(&b));
    assert_eq!(store.read(&name("capnpc")), None);
}

#[test]
fn publishing_twice_is_publishing_once() {
    let a = defs(&[("MODE", Some("full"))]);
    let mut once = Store::new();
    once.publish(&name("kj"), &a);
    let mut twice = Store::new();
    twice.publish(&name("kj"), &a);
    twice.publish(&name("kj"), &a);
    assert_eq!(once, twice);
    assert_eq!(twice.records.len(), 1);
}

#[test]
fn publishing_again_replaces_the_unit_and_no_other() {
    let mut store = Store::new();
    store.publish(&name("kj"), &defs(&[("MODE", Some("full"))]));
    store.publish(&name("capnp"), &defs(&[("X", None)]));
    store.publish(&name("kj"), &defs(&[("MODE", Some("minimal"))]));
    assert_eq!(store.read(&name("kj")), Some(&defs(&[("MODE", Some("minimal"))])));
    assert_eq!(store.read(&name("capnp")), Some(&defs(&[("X", None)])));
    assert_eq!(store.records.len(), 2);
}

#[test]
fn import_conflict_names_key_and_both_values() {
    let mut store = Store::new();
    store.publish(&name("A"), &defs(&[("MODE", Some("full"))]));
    let local = defs(&[("MODE", Some("minimal"))]);
    assert_eq!(
        import(&store, &vec![name("A")], &local),
        Err(PropagationError::Conflict {
            key: name("MODE"),
            expected: Some(name("full")),
            actual: Some(name("minimal")),
        })
    );
}

#[test]
fn import_is_transitive_through_republication() {
    let mut store = Store::new();
    store.publish(&name("A"), &defs(&[("X", Some("1"))]));
    let b = import(&store, &vec![name("A")], &defs(&[("Y", Some("0"))])).unwrap();
    assert_eq!(b, defs(&[("X", Some("1")), ("Y", Some("0"))]));
    store.publish(&name("B"), &b);
    let c = import(&store, &vec![name("B")], &Definitions::new()).unwrap();
    assert_eq!(c.get(&name("X")), Some(&Some(name("1"))));
    assert_eq!(c.get(&name("Y")), Some(&Some(name("0"))));
    assert_eq!(c, defs(&[("X", Some("1")), ("Y", Some("0"))]));
}

#[test]
fn import_without_publication_is_refused() {
    let mut store = Store::new();
    store.publish(&name("kj"), &Definitions::new());
    assert_eq!(
        import(&store, &vec![name("kj"), name("capnp")], &Definitions::new()),
        Err(PropagationError::MissingPublication { unit: name("capnp") })
    );
    assert_eq!(
        import(&Store::new(), &vec![name("kj")], &defs(&[("X", None)])),
        Err(PropagationError::MissingPublication { unit: name("kj") })
    );
}

#[test]
fn import_from_nobody_is_the_local_set() {
    let local = defs(&[("MODE", Some("full")), ("DIAG", Some("0"))]);
    assert_eq!(import(&Store::new(), &Vec::new(), &local), Ok(local.copy()));
}

#[test]
fn import_joins_several_units_in_order() {
    let mut store = Store::new();
    store.publish(&name("kj"), &defs(&[("MODE", Some("full"))]));
    store.publish(&name("capnp"), &defs(&[("MODE", Some("full")), ("DIAG", Some("1"))]));
    let got = import(&store, &vec![name("capnp"), name("kj")], &defs(&[("Z", None)])).unwrap();
    assert_eq!(got, defs(&[("MODE", Some("full")), ("DIAG", Some("1")), ("Z", None)]));
}

#[test]
fn import_rejects_units_that_disagree() {
    let mut store = Store::new();
    store.publish(&name("kj"), &defs(&[("MODE", Some("full"))]));
    store.publish(&name("capnp"), &defs(&[("MODE", Some("minimal"))]));
    assert_eq!(
        import(&store, &vec![name("kj"), name("capnp")], &Definitions::new()),
        Err(PropagationError::Conflict {
            key: name("MODE"),
            expected: Some(name("full")),
            actual: Some(name("minimal")),
        })
    );
}
