//! Gathering the HAL macro definitions of a header.

use vstd::prelude::*;
use crate::c_macro::string_views;
use crate::header_file::{collect_definitions, definitions};

verus! {

/// The `#define __HAL_` lines of a header, continuations joined, with every backslash removed.
pub fn get_hal_macros(lines: &Vec<String>) -> (r: Vec<String>)
    ensures
        string_views(r@) == definitions(string_views(lines@), "#define __HAL_"@, "\\"@),
{
    collect_definitions(lines, "#define __HAL_", "\\")
}

} // verus!
