//! Which files of a plugin folder are plugins.

use vstd::prelude::*;
use crate::text::{chars_of, string_of_range};

verus! {

/// Loads plugins from a folder. The loading itself is the host's; the loader
/// says which files to load.
pub struct PluginLoader {}

/// Index just behind the last `.` of `s` before `j`; zero where there is none.
pub open spec fn extension_start(s: Seq<char>, j: int) -> int
    decreases j,
{
    if 0 < j <= s.len() && s[j - 1] != '.' {
        extension_start(s, j - 1)
    } else {
        j
    }
}

impl PluginLoader {
    pub fn new() -> Self {
        Self {  }
    }

    /// Whether a file of this name is a plugin: it ends in `.wasm` and has a
    /// character before the point.
    pub fn is_plugin_file(&self, file_name: &str) -> (r: bool)
        ensures
            r == (extension_start(file_name@, file_name@.len() as int) > 1
                && file_name@.subrange(
                extension_start(file_name@, file_name@.len() as int),
                file_name@.len() as int,
            ) == "wasm"@),
    {
        let chars = chars_of(file_name);
        let mut j: usize = chars.len();
        while j > 0 && chars[j - 1] != '.'
            invariant
                j <= chars@.len(),
                extension_start(chars@, j as int) == extension_start(
                    chars@,
                    chars@.len() as int,
                ),
            decreases j,
        {
            j -= 1;
        }
        if j <= 1 {
            return false;
        }
        let extension = string_of_range(&chars, j, chars.len());
        crate::text::str_eq(extension.as_str(), "wasm")
    }
}

} // verus!
