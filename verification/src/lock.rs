//! What `gv.lock` records.

use vstd::prelude::*;

use crate::text;
use crate::text::texts;

verus! {

/// A tool as it was built and installed.
#[derive(Debug, Clone)]
pub struct LockedTool {
    pub name: String,
    pub package: String,
    pub version: String,
    pub bin: String,
    /// The hash of the module's zip.
    pub module_hash: String,
    /// The Go toolchain that built the tool.
    pub built_with: String,
    /// The digest of the binary.
    pub binary_sha256: String,
}

/// Whether `i` is the first record of the name.
pub open spec fn is_first_record(locked: Seq<LockedTool>, name: Seq<char>, i: int) -> bool {
    &&& 0 <= i < locked.len()
    &&& locked[i].name@ == name
    &&& forall|j: int| 0 <= j < i ==> (#[trigger] locked[j]).name@ != name
}

/// The record of a tool that a project pins, given the names of the tools in
/// its `gv.toml` and the records in its `gv.lock`: there is one where both
/// have the name.
pub fn pinned_tool<'a>(tools: &[String], locked: &'a [LockedTool], name: &str) -> (r: Option<
    &'a LockedTool,
>)
    ensures
        match r {
            Some(l) => {
                &&& texts(tools@).contains(name@)
                &&& exists|i: int| is_first_record(locked@, name@, i) && *l == locked@[i]
            },
            None => {
                ||| !texts(tools@).contains(name@)
                ||| forall|j: int|
                    0 <= j < locked@.len() ==> (#[trigger] locked@[j]).name@ != name@
            },
        },
        r matches Some(l) ==> l.name@ == name@,
{
    let mut i: usize = 0;
    while i < tools.len() && !text::same(tools[i].as_str(), name)
        invariant
            i <= tools@.len(),
            forall|j: int| 0 <= j < i ==> #[trigger] texts(tools@)[j] != name@,
        decreases tools@.len() - i,
    {
        assert(texts(tools@)[i as int] == tools@[i as int]@);
        i = i + 1;
    }
    if i >= tools.len() {
        return None;
    }
    assert(texts(tools@)[i as int] == name@);
    let mut k: usize = 0;
    while k < locked.len()
        invariant
            k <= locked@.len(),
            texts(tools@).contains(name@),
            forall|j: int| 0 <= j < k ==> (#[trigger] locked@[j]).name@ != name@,
        decreases locked@.len() - k,
    {
        if text::same(locked[k].name.as_str(), name) {
            assert(is_first_record(locked@, name@, k as int));
            return Some(&locked[k]);
        }
        k = k + 1;
    }
    None
}

} // verus!
