//! Wrapping core modules.

use formawasm::binary::carries_only_own;
use formawasm::component::{wrap_component, ComponentWrapError};
use formawasm::ir::IrModule;
use formawasm::module_lowering::lower_module;
use formawasm::resolution::{read_document, ReadError};

fn core_module() -> Vec<u8> {
    lower_module(&IrModule {
        structs: vec![],
        traits: vec![],
        enums: vec![],
        lets: vec![],
        functions: vec![],
        impls: vec![],
        prelude_optional: None,
        prelude_array: None,
        prelude_range: None,
        prelude_dictionary: None,
    })
    .unwrap()
}

const EMPTY: &str = "package formawasm:generated;\n\nworld component {\n}\n";

#[test]
fn a_core_module_becomes_a_component() {
    let given = core_module();
    assert!(given.starts_with(&[0x00, 0x61, 0x73, 0x6d, 0x01, 0x00, 0x00, 0x00]));
    let component = wrap_component(given.clone(), EMPTY).unwrap();
    assert!(component.starts_with(&[0x00, 0x61, 0x73, 0x6d, 0x0d, 0x00, 0x01, 0x00]));
    assert_ne!(component, given);
}

#[test]
fn a_document_that_does_not_parse_is_rejected() {
    match wrap_component(core_module(), "world {") {
        Err(ComponentWrapError::WitParse { reason }) => assert!(!reason.is_empty()),
        other => panic!("{other:?}"),
    }
}

#[test]
fn a_document_without_the_world_is_rejected() {
    match wrap_component(core_module(), "package a:b;\n\nworld other {\n}\n") {
        Err(ComponentWrapError::WorldMissing { reason }) => assert!(!reason.is_empty()),
        other => panic!("{other:?}"),
    }
}

#[test]
fn bytes_that_are_no_module_are_rejected() {
    match wrap_component(vec![1, 2, 3], EMPTY) {
        Err(ComponentWrapError::EncoderRejected { reason }) => assert!(!reason.is_empty()),
        other => panic!("{other:?}"),
    }
}

#[test]
fn a_module_without_a_promised_export_is_rejected() {
    let wit = "package a:b;\n\nworld component {\n  export f: func();\n}\n";
    match wrap_component(core_module(), wit) {
        Err(
            ComponentWrapError::EncoderRejected { reason }
            | ComponentWrapError::EncodeFailed { reason },
        ) => assert!(!reason.is_empty()),
        other => panic!("{other:?}"),
    }
}

#[test]
fn documents_are_read() {
    assert!(read_document(EMPTY).is_ok());
    match read_document("package a:b;\n\nworld other {\n}\n") {
        Err(ReadError::NoWorld(reason)) => assert!(!reason.is_empty()),
        Err(e) => panic!("{e:?}"),
        Ok(_) => panic!("read"),
    }
    match read_document("}") {
        Err(ReadError::Syntax(reason)) => assert!(!reason.is_empty()),
        Err(e) => panic!("{e:?}"),
        Ok(_) => panic!("read"),
    }
}

#[test]
fn documents_have_a_largest_size() {
    let commented = |words: &str| format!("{EMPTY}// {words}\n");
    // One long word repeats in descriptions; many short ones do not.
    assert!(read_document(&commented(&"x".repeat(16_000))).is_ok());
    assert!(matches!(
        read_document(&commented(&"x".repeat(17_000))),
        Err(ReadError::TooLong)
    ));
    assert!(read_document(&commented(&"x ".repeat(100_000))).is_ok());
    assert_eq!(
        wrap_component(core_module(), &"x ".repeat(0x0080_0001)),
        Err(ComponentWrapError::TooLong)
    );
}

#[test]
fn documents_have_a_deepest_nesting() {
    let chain = |n: usize| {
        let mut text = "package formawasm:generated;\n\ninterface types {\n".to_string();
        text.push_str("  record r0 {\n    x: s32,\n  }\n");
        for i in 1..n {
            text.push_str(&format!("  record r{i} {{\n    x: r{},\n  }}\n", i - 1));
        }
        text.push_str("}\n\nworld component {\n");
        text.push_str(&format!("  use types.{{r{}}};\n", n - 1));
        text.push_str(&format!("  import get: func() -> r{};\n}}\n", n - 1));
        text
    };
    let component = wrap_component(core_module(), &chain(20)).unwrap();
    assert!(component.starts_with(&[0x00, 0x61, 0x73, 0x6d, 0x0d, 0x00, 0x01, 0x00]));
    // Three more braces stand around the records, and one level is the value.
    assert!(read_document(&chain(2044)).is_ok());
    match wrap_component(core_module(), &chain(2044)) {
        Err(ComponentWrapError::EncoderRejected { reason }) => {
            assert!(reason.contains("nesting"), "{reason}")
        },
        other => panic!("{other:?}"),
    }
    assert!(matches!(read_document(&chain(2045)), Err(ReadError::TooLong)));
    let tuples = |n: usize| {
        let mut text = "package formawasm:generated;\n\nworld component {\n".to_string();
        for i in 0..n {
            text.push_str(&format!("  export call{i}: func(x: option<list<s32>>) -> list<s32>;\n"));
        }
        text.push_str("}\n");
        text
    };
    // Many types side by side nest no deeper than one of them.
    if let Err(e) = read_document(&tuples(3000)) {
        panic!("{e:?}");
    }
    // Inside comments brackets need not match, so all of them count.
    assert!(matches!(
        read_document(&format!("{}// x\n", tuples(3000))),
        Err(ReadError::TooLong)
    ));
}

fn section(id: u8, content: &[u8]) -> Vec<u8> {
    let mut out = vec![id, content.len() as u8];
    out.extend_from_slice(content);
    out
}

fn named(text: &str) -> Vec<u8> {
    let mut out = vec![text.len() as u8];
    out.extend_from_slice(text.as_bytes());
    out
}

fn with_sections(sections: &[Vec<u8>]) -> Vec<u8> {
    let mut out = vec![0x00, 0x61, 0x73, 0x6d, 0x01, 0x00, 0x00, 0x00];
    for s in sections {
        out.extend_from_slice(s);
    }
    out
}

#[test]
fn modules_of_other_kinds_are_foreign() {
    let import = |module: &str, name: &str, kind: u8| {
        let mut content = vec![1];
        content.extend(named(module));
        content.extend(named(name));
        content.extend([kind, 0]);
        section(2, &content)
    };
    let export = |name: &str| {
        let mut content = vec![1];
        content.extend(named(name));
        content.extend([0, 0]);
        section(7, &content)
    };
    let custom = |name: &str| section(0, &named(name));
    for own in [
        vec![],
        vec![custom("name")],
        vec![custom("component")],
        vec![import("cm32p2", "log", 0), export("f"), export("memory")],
        vec![section(1, &[0])],
    ] {
        assert!(carries_only_own(&with_sections(&own)));
    }
    for foreign in [
        vec![custom("component-type")],
        vec![section(1, &[0]), custom("component-type:other")],
        vec![import("$root", "[waitable-set-wait]", 0)],
        vec![import("cm32p2", "[x]", 0)],
        vec![import("cm32p2", "memory", 2)],
        vec![import("cm32p2x", "log", 0)],
        vec![export("[async-lift]f")],
        vec![export("cm32p2||f")],
        vec![vec![0, 5, 1]],
        vec![vec![1, 0x80]],
        vec![section(2, &[1, 9])],
    ] {
        let bytes = with_sections(&foreign);
        assert!(!carries_only_own(&bytes), "{foreign:?}");
        assert_eq!(wrap_component(bytes, EMPTY), Err(ComponentWrapError::ForeignModule));
    }
    // What begins otherwise is no module, and the encoder says so.
    assert!(carries_only_own(&vec![1, 2, 3]));
    assert!(carries_only_own(&vec![0x00, 0x61, 0x73, 0x6d, 0x0d, 0x00, 0x01, 0x00]));
    assert!(!carries_only_own(&vec![0x00, 0x61]));
    assert!(!carries_only_own(&vec![]));
    assert!(carries_only_own(&core_module()));
}
