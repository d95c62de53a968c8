use kj_build::definitions::{Definition, Definitions, PropagationError};
use kj_build::format::{can_encode, decode, encode, find_char, has_no, record_name};
use kj_build::groups::{ConfigError, GroupId};
use kj_build::pipeline::BuildError;
use kj_build::report::{group_name, show_value};
use kj_build::staging::StageError;

fn defs(list: &[(&str, Option<&str>)]) -> Definitions {
    Definitions { entries: list.iter().map(|(k, v)| Definition::new(k, *v)).collect() }
}

fn name(s: &str) -> String {
    s.to_string()
}

#[test]
fn encode_writes_a_line_for_each_definition() {
    let d = defs(&[("MODE", Some("full")), ("CAPNP_LITE", None), ("DIAG", Some("0"))]);
    assert_eq!(encode(&d), Some(name("MODE=full\nCAPNP_LITE\nDIAG=0\n")));
    assert_eq!(encode(&Definitions::new()), Some(String::new()));
    assert_eq!(encode(&defs(&[("A", Some(""))])), Some(name("A=\n")));
    assert_eq!(encode(&defs(&[("A", Some("x=y=z"))])), Some(name("A=x=y=z\n")));
}

#[test]
fn encode_refuses_what_no_line_can_hold() {
    assert_eq!(encode(&defs(&[("A=B", None)])), None);
    assert_eq!(encode(&defs(&[("A\nB", Some("1"))])), None);
    assert_eq!(encode(&defs(&[("OK", None), ("A", Some("1\n2"))])), None);
    assert!(can_encode(&Definition::new("A", Some("=="))));
    assert!(!can_encode(&Definition::new("=", None)));
}

#[test]
fn decode_reads_the_lines_back() {
    assert_eq!(
        decode("MODE=full\nCAPNP_LITE\nDIAG=0\n"),
        Some(defs(&[("MODE", Some("full")), ("CAPNP_LITE", None), ("DIAG", Some("0"))]))
    );
    assert_eq!(decode(""), Some(Definitions::new()));
    assert_eq!(decode("A=\n"), Some(defs(&[("A", Some(""))])));
    assert_eq!(decode("A=x=y\n"), Some(defs(&[("A", Some("x=y"))])));
    assert_eq!(decode("\n"), Some(defs(&[("", None)])));
    assert_eq!(decode("=\n"), Some(defs(&[("", Some(""))])));
    assert_eq!(decode("K\u{e9}Y=v\u{e4}l\n"), Some(defs(&[("K\u{e9}Y", Some("v\u{e4}l"))])));
}

#[test]
fn decode_refuses_a_text_cut_short() {
    assert_eq!(decode("MODE=full\nDIAG=0"), None);
    assert_eq!(decode("MODE"), None);
}

#[test]
fn what_is_written_is_read_back() {
    let lists = [
        defs(&[]),
        defs(&[("X", Some("1"))]),
        defs(&[("X", Some("1")), ("Y", Some("0")), ("Z", None), ("W", Some("a=b"))]),
        defs(&[("", None), ("", Some(""))]),
    ];
    for d in lists.iter() {
        let text = encode(d).unwrap();
        assert_eq!(decode(&text), Some(d.clone()));
    }
}

#[test]
fn finding_characters() {
    assert_eq!(find_char("a=b=c", 0, 5, '='), 1);
    assert_eq!(find_char("a=b=c", 2, 5, '='), 3);
    assert_eq!(find_char("a=b=c", 4, 5, '='), 5);
    assert_eq!(find_char("a=b=c", 2, 3, '='), 3);
    assert_eq!(find_char("", 0, 0, '='), 0);
    assert!(has_no("abc", '='));
    assert!(!has_no("a=c", '='));
    assert!(has_no("", '\n'));
}

#[test]
fn record_names() {
    assert_eq!(record_name(&name("kj")), Some(name("kj.defs")));
    assert_eq!(record_name(&name("capnp")), Some(name("capnp.defs")));
    assert_eq!(record_name(&name("")), None);
    assert_eq!(record_name(&name("..")), None);
    assert_eq!(record_name(&name("a/b")), None);
    assert_eq!(record_name(&name("/kj")), None);
}

#[test]
fn messages_name_what_went_wrong() {
    let conflict = PropagationError::Conflict {
        key: name("MODE"),
        expected: Some(name("full")),
        actual: Some(name("minimal")),
    };
    assert_eq!(
        conflict.message(),
        "definition MODE conflicts: expected \"full\", found \"minimal\""
    );
    assert_eq!(
        BuildError::Propagation(conflict).message(&name("capnp")),
        "unit capnp: definition MODE conflicts: expected \"full\", found \"minimal\""
    );
    let bare = PropagationError::Conflict { key: name("X"), expected: None, actual: Some(name("")) };
    assert_eq!(bare.message(), "definition X conflicts: expected nothing, found \"\"");
    let missing = PropagationError::MissingPublication { unit: name("kj") };
    assert_eq!(missing.message(), "no definitions published by unit kj");
    let config = ConfigError::MissingPrerequisite { group: GroupId::Http, needs: GroupId::AsyncIo };
    assert_eq!(config.message(), "group http is enabled without group async-io");
    assert_eq!(
        BuildError::Config(config).message(&name("kj")),
        "unit kj: group http is enabled without group async-io"
    );
    let stage = StageError::Unconfined { path: name("../x.h") };
    assert_eq!(stage.message(), "path \"../x.h\" does not stay below the staging root");
    assert_eq!(
        BuildError::Stage(stage).message(&name("capnpc")),
        "unit capnpc: path \"../x.h\" does not stay below the staging root"
    );
}

#[test]
fn names_in_messages() {
    assert_eq!(group_name(GroupId::Base), "base");
    assert_eq!(group_name(GroupId::Heavy), "heavy");
    assert_eq!(group_name(GroupId::AsyncIo), "async-io");
    assert_eq!(group_name(GroupId::Http), "http");
    assert_eq!(group_name(GroupId::Tls), "tls");
    assert_eq!(group_name(GroupId::Compression), "compression");
    assert_eq!(group_name(GroupId::SchemaCompiler), "schema-compiler");
    assert_eq!(show_value(&Some(name("1"))), "\"1\"");
    assert_eq!(show_value(&None), "nothing");
}
