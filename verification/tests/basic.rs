use kj_build::compiler::call;
use kj_build::definitions::{Definition, Definitions};
use kj_build::propagation::Store;
use kj_build::units::{capnp_unit, capnpc_unit, kj_unit};

fn strings(list: &[&str]) -> Vec<String> {
    list.iter().map(|s| s.to_string()).collect()
}

#[test]
fn test_id() {
    assert_eq!(kj_unit().name, "kj");
    assert_eq!(capnp_unit().name, "capnp");
    assert_eq!(capnpc_unit().name, "capnpc");
    assert_eq!(kj_unit().upstream, Vec::<String>::new());
    assert_eq!(capnp_unit().upstream, strings(&["kj"]));
    assert_eq!(capnpc_unit().upstream, strings(&["capnp", "kj"]));
}

#[test]
fn basic_test_id() {
    let mut store = Store::new();
    let mut defs = Definitions::new();
    defs.define(&Definition::new("MODE", Some("full"))).unwrap();
    let unit = kj_unit();
    store.publish(&unit.name, &defs);
    assert_eq!(store.read(&"kj".to_string()), Some(&defs));
    assert_eq!(store.read(&"capnp".to_string()), None);
}

#[test]
fn call_keeps_lists_in_order() {
    let request = call(
        &["samples/calculator.capnp", "samples/addressbook.capnp"],
        &["include"],
        &[],
        true,
    );
    assert_eq!(
        request.files,
        strings(&["samples/calculator.capnp", "samples/addressbook.capnp"])
    );
    assert_eq!(request.imports, strings(&["include"]));
    assert_eq!(request.prefixes, Vec::<String>::new());
    assert!(request.standard_import);
}

#[test]
fn call_without_standard_import() {
    let request = call(&[], &[], &["src/"], false);
    assert!(request.files.is_empty());
    assert!(request.imports.is_empty());
    assert_eq!(request.prefixes, strings(&["src/"]));
    assert!(!request.standard_import);
}
