//! The list of tools that a model is told it may call.
use vstd::prelude::*;

verus! {

/// Name under which the file reader is offered.
pub open spec fn read_file_name() -> Seq<char> {
    seq!['r', 'e', 'a', 'd', '_', 'f', 'i', 'l', 'e']
}

/// Adds `read_file` to `tools` unless it is there already.
pub fn ensure_read_file_tool_enabled(tools: &mut Vec<String>)
    ensures
        (exists|k: int| 0 <= k < old(tools)@.len() && (#[trigger] old(tools)@[k])@ == read_file_name())
            ==> final(tools)@ == old(tools)@,
        !(exists|k: int| 0 <= k < old(tools)@.len() && (#[trigger] old(tools)@[k])@ == read_file_name())
            ==> final(tools)@.len() == old(tools)@.len() + 1 && final(tools)@.take(
            old(tools)@.len() as int,
        ) == old(tools)@ && final(tools)@.last()@ == read_file_name(),
{
    let name = String::from_str("read_file");
    proof {
        reveal_strlit("read_file");
        assert(name@ =~= read_file_name());
    }
    let mut i: usize = 0;
    while i < tools.len()
        invariant
            i <= tools@.len(),
            tools@ == old(tools)@,
            name@ == read_file_name(),
            forall|k: int| 0 <= k < i ==> (#[trigger] tools@[k])@ != read_file_name(),
        decreases tools@.len() - i,
    {
        if tools[i] == name {
            return;
        }
        i += 1;
    }
    tools.push(name);
    assert(tools@.take(old(tools)@.len() as int) =~= old(tools)@);
}

} // verus!
