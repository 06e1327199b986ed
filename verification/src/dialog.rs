//! The two commands the user interface calls: picking a file and showing a
//! message.

use vstd::prelude::*;
use vstd::string::StringExecFns;

verus! {

/// The kind of a message dialog.
#[derive(Clone, Copy, Debug, PartialEq, Eq, Structural)]
pub enum DialogKind {
    Info,
    Warning,
    Error,
}

/// Mathematical model of a [`KindResolution`].
pub struct ResolutionSpec {
    pub kind: DialogKind,
    pub warning: Option<Seq<char>>,
}

/// The kind to show a message with, and the warning to log when the kind
/// that was asked for is not one of the three.
#[derive(Clone, Debug, PartialEq, Eq)]
pub struct KindResolution {
    pub kind: DialogKind,
    pub warning: Option<String>,
}

impl View for KindResolution {
    type V = ResolutionSpec;

    open spec fn view(&self) -> ResolutionSpec {
        ResolutionSpec {
            kind: self.kind,
            warning: match self.warning {
                Some(text) => Some(text@),
                None => None,
            },
        }
    }
}

/// Whether `name` is one of the three kinds, written in lower case.
pub open spec fn is_known_kind(name: Seq<char>) -> bool {
    name == "info"@ || name == "warning"@ || name == "error"@
}

/// The kind that `name` stands for. Any other name stands for `Info`.
pub open spec fn kind_of(name: Seq<char>) -> DialogKind {
    if name == "warning"@ {
        DialogKind::Warning
    } else if name == "error"@ {
        DialogKind::Error
    } else {
        DialogKind::Info
    }
}

/// The line to log when `name` is not a known kind.
pub open spec fn unknown_kind_warning(name: Seq<char>) -> Seq<char> {
    "Unknown kind '"@ + name + "', defaulting to 'Info'"@
}

/// The kind to show for `name`, with one warning exactly when `name` is not
/// a known kind.
pub open spec fn resolution_of(name: Seq<char>) -> ResolutionSpec {
    ResolutionSpec {
        kind: kind_of(name),
        warning: if is_known_kind(name) {
            None
        } else {
            Some(unknown_kind_warning(name))
        },
    }
}

/// Resolves the kind of a message dialog from its name. An unknown name
/// falls back to `Info` and comes with the warning to log.
pub fn resolve_kind(name: &str) -> (resolution: KindResolution)
    ensures
        resolution@ == resolution_of(name@),
{
    proof {
        lemma_known_kinds();
    }
    let given = name.to_owned();
    if given == "info".to_owned() {
        KindResolution { kind: DialogKind::Info, warning: None }
    } else if given == "warning".to_owned() {
        KindResolution { kind: DialogKind::Warning, warning: None }
    } else if given == "error".to_owned() {
        KindResolution { kind: DialogKind::Error, warning: None }
    } else {
        let warning = "Unknown kind '".to_owned().concat(name).concat("', defaulting to 'Info'");
        KindResolution { kind: DialogKind::Info, warning: Some(warning) }
    }
}

/// The three names stand for three different kinds.
pub proof fn lemma_known_kinds()
    ensures
        kind_of("info"@) == DialogKind::Info,
        kind_of("warning"@) == DialogKind::Warning,
        kind_of("error"@) == DialogKind::Error,
        is_known_kind("info"@) && is_known_kind("warning"@) && is_known_kind("error"@),
{
    reveal_strlit("info");
    reveal_strlit("warning");
    reveal_strlit("error");
    assert("info"@.len() != "warning"@.len());
    assert("info"@.len() != "error"@.len());
    assert("error"@.len() != "warning"@.len());
}

/// The answer of the file picker to the user interface: the chosen path,
/// or the empty text when the user chose nothing.
pub fn selection_reply(choice: Option<String>) -> (reply: String)
    ensures
        reply@ == match choice {
            Some(path) => path@,
            None => Seq::<char>::empty(),
        },
{
    match choice {
        Some(path) => path,
        None => String::new(),
    }
}

} // verus!
