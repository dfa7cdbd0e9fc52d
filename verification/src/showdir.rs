//! Showing a directory tree: one line for each entry, indented by its depth.

use vstd::prelude::*;
use vstd::string::*;

verus! {

/// The indentation at a depth: one tab for each level.
pub open spec fn indent(depth: nat) -> Seq<char> {
    Seq::new(depth, |i: int| '\t')
}

/// Whether a directory is shown without what is below it.
pub open spec fn is_elided(path_name: Seq<char>) -> bool {
    path_name == "./target/debug"@
}

/// What is shown for an entry at a depth: its line, and for a directory
/// that is not descended into a second line in its place.
pub open spec fn shown_text(path_name: Seq<char>, is_dir: bool, depth: nat) -> Seq<char> {
    let line = indent(depth) + " "@ + path_name + "\n"@;
    if is_dir && is_elided(path_name) {
        line + indent(depth) + "\t...\n"@
    } else {
        line
    }
}

/// The indentation at a depth.
pub fn display_prefix(depth: usize) -> (prefix: String)
    ensures
        prefix@ == indent(depth as nat),
{
    proof {
        reveal_strlit("\t");
    }
    let mut prefix = String::new();
    let mut i: usize = 0;
    while i < depth
        invariant
            i <= depth,
            prefix@ == indent(i as nat),
            "\t"@ == seq!['\t'],
        decreases depth - i,
    {
        prefix.append("\t");
        assert(prefix@ =~= indent((i + 1) as nat));
        i = i + 1;
    }
    prefix
}

/// What to show for an entry at a depth, and whether to go on with what is
/// below it: every directory is descended into but `./target/debug`.
pub fn showdir_entry(path_name: &str, is_dir: bool, depth: usize) -> (shown: (String, bool))
    ensures
        shown.0@ == shown_text(path_name@, is_dir, depth as nat),
        shown.1 == (is_dir && !is_elided(path_name@)),
{
    let prefix = display_prefix(depth);
    let mut text = prefix.clone();
    text.append(" ");
    text.append(path_name);
    text.append("\n");
    if !is_dir {
        return (text, false);
    }
    let name = String::from_str(path_name);
    let elided = String::from_str("./target/debug");
    if name == elided {
        text.append(prefix.as_str());
        text.append("\t...\n");
        (text, false)
    } else {
        (text, true)
    }
}

} // verus!
