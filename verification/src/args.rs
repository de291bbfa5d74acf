//! The command line of the host program.
use vstd::prelude::*;

verus! {

/// The command line: the instruction file and where the plugins are.
pub struct Args {
    /// The JSON file holding the instruction to run.
    pub json_file: String,
    /// Directories searched, recursively, for WebAssembly plugins.
    pub wasm_dir: Vec<String>,
    /// Further WebAssembly plugin files.
    pub wasm_file: Vec<String>,
}

impl Args {
    /// The places plugins are loaded from, in order: the directories, then the files.
    pub fn plugin_sources(&self) -> (r: Vec<String>)
        ensures
            crate::text::strings_view(r@) == crate::text::strings_view(self.wasm_dir@)
                + crate::text::strings_view(self.wasm_file@),
    {
        let mut out: Vec<String> = Vec::new();
        let mut i: usize = 0;
        while i < self.wasm_dir.len()
            invariant
                i <= self.wasm_dir@.len(),
                crate::text::strings_view(out@) == crate::text::strings_view(self.wasm_dir@).subrange(
                    0,
                    i as int,
                ),
            decreases self.wasm_dir@.len() - i,
        {
            let ghost prev = out@;
            out.push(self.wasm_dir[i].clone());
            assert(crate::text::strings_view(out@) =~= crate::text::strings_view(prev).push(
                self.wasm_dir@[i as int]@,
            ));
            assert(crate::text::strings_view(self.wasm_dir@).subrange(0, i + 1)
                =~= crate::text::strings_view(self.wasm_dir@).subrange(0, i as int).push(
                self.wasm_dir@[i as int]@,
            ));
            i = i + 1;
        }
        assert(crate::text::strings_view(self.wasm_dir@).subrange(0, i as int)
            =~= crate::text::strings_view(self.wasm_dir@));
        let mut j: usize = 0;
        while j < self.wasm_file.len()
            invariant
                j <= self.wasm_file@.len(),
                crate::text::strings_view(out@) == crate::text::strings_view(self.wasm_dir@)
                    + crate::text::strings_view(self.wasm_file@).subrange(0, j as int),
            decreases self.wasm_file@.len() - j,
        {
            let ghost prev = out@;
            out.push(self.wasm_file[j].clone());
            assert(crate::text::strings_view(out@) =~= crate::text::strings_view(prev).push(
                self.wasm_file@[j as int]@,
            ));
            assert(crate::text::strings_view(self.wasm_file@).subrange(0, j + 1)
                =~= crate::text::strings_view(self.wasm_file@).subrange(0, j as int).push(
                self.wasm_file@[j as int]@,
            ));
            j = j + 1;
        }
        assert(crate::text::strings_view(self.wasm_file@).subrange(0, j as int)
            =~= crate::text::strings_view(self.wasm_file@));
        out
    }
}

} // verus!
