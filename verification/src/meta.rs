//! Generation of the Rust sources that the code generator includes: the
//! type table `types.rs`.

use crate::gen_types::{self, types_file_text, GeneratedFile};
use vstd::prelude::*;

verus! {

/// Generates the type-table source `types.rs` for `out_dir`. This is the
/// only generated source this library produces: the settings, instruction,
/// ISLE and constant-hash sources are not generated here.
pub fn generate_type_sources(out_dir: &str) -> (files: Vec<GeneratedFile>)
    ensures
        files@.len() == 1,
        files@[0].directory@ == out_dir@,
        files@[0].filename@ == "types.rs"@,
        files@[0].contents@ == types_file_text(),
{
    let mut files = Vec::new();
    files.push(gen_types::generate("types.rs", out_dir));
    files
}

} // verus!
