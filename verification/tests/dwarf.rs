//! Debug sections.

use formawasm::dwarf::{
    emit_debug_sections, resolve_file, DebugSections, FileId, FunctionDebugInfo,
};

#[test]
fn sections_are_empty() {
    let info = FunctionDebugInfo {
        name: "f".to_string(),
        file: FileId(1),
        line: 3,
        code_offset_start: 0,
        code_offset_end: 10,
    };
    let sections = emit_debug_sections(&vec![info], &vec!["a.fv".to_string()]);
    assert_eq!(sections, DebugSections::default());
    assert!(sections.debug_info.is_empty() && sections.debug_abbrev.is_empty());
    assert!(sections.debug_line.is_empty() && sections.debug_str.is_empty());
}

#[test]
fn files_are_counted_from_one() {
    let table = vec!["a.fv".to_string(), "b.fv".to_string()];
    assert_eq!(resolve_file(FileId(0), &table), None);
    assert_eq!(resolve_file(FileId(1), &table), Some(&"a.fv".to_string()));
    assert_eq!(resolve_file(FileId(2), &table), Some(&"b.fv".to_string()));
    assert_eq!(resolve_file(FileId(3), &table), None);
    assert!(FileId(0).is_synthetic());
    assert!(!FileId(1).is_synthetic());
}
