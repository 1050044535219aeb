//! The commands the command line program runs first: loading each file it
//! was given, then exiting if asked to.

use vstd::prelude::*;
use vstd::string::*;
use crate::records::strings_view;

verus! {

/// The lines of the startup script: `load <path>` for each path in order,
/// then `exit` when asked.
pub open spec fn startup_lines(paths: Seq<Seq<char>>, exit: bool) -> Seq<Seq<char>> {
    let loads = paths.map_values(|p: Seq<char>| "load "@ + p);
    if exit {
        loads.push("exit"@)
    } else {
        loads
    }
}

/// The lines joined, each after the first preceded by a line break.
pub open spec fn joined_lines(lines: Seq<Seq<char>>) -> Seq<char>
    decreases lines.len(),
{
    if lines.len() == 0 {
        Seq::empty()
    } else if lines.len() == 1 {
        lines[0]
    } else {
        joined_lines(lines.drop_last()) + "\n"@ + lines.last()
    }
}

/// The script the program starts with: none when there is nothing to run,
/// else the lines joined by line breaks.
pub fn startup_script(paths: &Vec<String>, exit: bool) -> (script: Option<String>)
    ensures
        startup_lines(strings_view(paths@), exit).len() == 0 ==> script is None,
        startup_lines(strings_view(paths@), exit).len() > 0 ==> (script matches Some(s) && s@
            == joined_lines(startup_lines(strings_view(paths@), exit))),
{
    let ghost all = startup_lines(strings_view(paths@), exit);
    let ghost loads = strings_view(paths@).map_values(|p: Seq<char>| "load "@ + p);
    let mut text = String::new();
    let mut i: usize = 0;
    while i < paths.len()
        invariant
            i <= paths@.len(),
            loads == strings_view(paths@).map_values(|p: Seq<char>| "load "@ + p),
            text@ == joined_lines(loads.take(i as int)),
        decreases paths@.len() - i,
    {
        assert(loads.take(i + 1).drop_last() =~= loads.take(i as int));
        assert(loads.take(i + 1).last() == "load "@ + paths@[i as int]@);
        if i > 0 {
            text.append("\n");
        }
        text.append("load ");
        text.append(paths[i].as_str());
        i = i + 1;
    }
    assert(loads.take(i as int) =~= loads);
    if exit {
        assert(all.drop_last() =~= loads);
        if i > 0 {
            text.append("\n");
        }
        text.append("exit");
    }
    if paths.len() == 0 && !exit {
        None
    } else {
        Some(text)
    }
}

} // verus!
