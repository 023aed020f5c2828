//! Debug sections of the core module.
//!
//! Functions are described by their name, their source line and their byte
//! range in the code section. The encoder of these descriptions is not there
//! yet: the sections stay empty.

use vstd::prelude::*;

verus! {

/// Index into a module's file table, counted from one. Zero stands for code
/// without a source file.
#[derive(Clone, Copy, Debug, PartialEq, Eq, Structural)]
pub struct FileId(pub u32);

impl FileId {
    /// Whether there is no source file.
    pub fn is_synthetic(&self) -> (r: bool)
        ensures
            r == (self.0 == 0),
    {
        self.0 == 0
    }
}

/// What is known of a function for debugging.
#[derive(Clone, Debug, PartialEq, Eq)]
pub struct FunctionDebugInfo {
    /// Name in the source.
    pub name: String,
    /// Source file.
    pub file: FileId,
    /// Source line, counted from one.
    pub line: u32,
    /// First byte in the code section.
    pub code_offset_start: u32,
    /// End in the code section.
    pub code_offset_end: u32,
}

/// The payloads of the debug sections.
#[derive(Clone, Debug, PartialEq, Eq)]
pub struct DebugSections {
    pub debug_info: Vec<u8>,
    pub debug_abbrev: Vec<u8>,
    pub debug_line: Vec<u8>,
    pub debug_str: Vec<u8>,
}

impl DebugSections {
    /// Whether all sections are empty.
    pub open spec fn empty(self) -> bool {
        &&& self.debug_info@.len() == 0
        &&& self.debug_abbrev@.len() == 0
        &&& self.debug_line@.len() == 0
        &&& self.debug_str@.len() == 0
    }
}

impl Default for DebugSections {
    fn default() -> (r: Self)
        ensures
            r.empty(),
    {
        DebugSections {
            debug_info: Vec::new(),
            debug_abbrev: Vec::new(),
            debug_line: Vec::new(),
            debug_str: Vec::new(),
        }
    }
}

/// The debug sections of functions. They are empty, whatever the functions.
pub fn emit_debug_sections(functions: &Vec<FunctionDebugInfo>, file_table: &Vec<String>) -> (r:
    DebugSections)
    ensures
        r.empty(),
{
    let _ = (functions, file_table);
    DebugSections::default()
}

/// The path of a source file. Code without a source file, and ids past the
/// end of the table, have none.
pub fn resolve_file<'a>(file: FileId, file_table: &'a Vec<String>) -> (r: Option<&'a String>)
    ensures
        match r {
            Some(path) => 1 <= file.0 <= file_table@.len() && *path == file_table@[file.0 - 1],
            None => file.0 == 0 || file.0 > file_table@.len(),
        },
{
    if file.is_synthetic() {
        return None;
    }
    let idx: usize = (file.0 - 1) as usize;
    if idx < file_table.len() {
        Some(&file_table[idx])
    } else {
        None
    }
}

} // verus!
