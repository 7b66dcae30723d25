//! Which editor edits a task's detail.

use vstd::prelude::*;

verus! {

/// The editor to run: `$EDITOR` when set, else `$VISUAL`, else `vi`.
pub open spec fn chosen_editor(editor: Option<Seq<char>>, visual: Option<Seq<char>>) -> Seq<char> {
    match editor {
        Some(e) => e,
        None => match visual {
            Some(v) => v,
            None => "vi"@,
        },
    }
}

/// The editor to run, given `$EDITOR` and `$VISUAL` (`None` when unset or
/// not Unicode).
pub fn editor_command(editor: Option<String>, visual: Option<String>) -> (cmd: String)
    ensures
        cmd@ == chosen_editor(
            match editor {
                Some(e) => Some(e@),
                None => None,
            },
            match visual {
                Some(v) => Some(v@),
                None => None,
            },
        ),
{
    match editor {
        Some(e) => e,
        None => match visual {
            Some(v) => v,
            None => String::from_str("vi"),
        },
    }
}

} // verus!
