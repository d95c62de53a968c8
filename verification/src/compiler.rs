//! The request handed to the schema compiler.

use vstd::prelude::*;
use crate::text::{owned, texts, views};

verus! {

/// One run of the schema compiler: the schema files to compile, the
/// directories searched for imports, the source prefixes to strip, and
/// whether the standard import directories are searched too.
#[derive(Clone, Debug, PartialEq, Eq)]
pub struct CompilerCall {
    pub files: Vec<String>,
    pub imports: Vec<String>,
    pub prefixes: Vec<String>,
    pub standard_import: bool,
}

/// Puts together a run of the schema compiler: the three lists as owned
/// strings, each in the order given, and the flag as it is. Running it is
/// left to the caller, who owns the bridge to the native compiler.
pub fn call(files: &[&str], imports: &[&str], prefixes: &[&str], standard_import: bool) -> (request:
    CompilerCall)
    ensures
        views(request.files@) == texts(files@),
        views(request.imports@) == texts(imports@),
        views(request.prefixes@) == texts(prefixes@),
        request.standard_import == standard_import,
{
    let file_list = owned(files);
    let import_list = owned(imports);
    let prefix_list = owned(prefixes);
    CompilerCall { files: file_list, imports: import_list, prefixes: prefix_list, standard_import }
}

} // verus!
