//! Recognising the backend among running processes.

use vstd::prelude::*;
use crate::path::{basename, final_segment};
use crate::signature::{BackendSignature, ProcessSpec, RunningProcessView, SignatureSpec};

verus! {

/// The lower-case form of `text` as the standard library computes it.
pub uninterp spec fn lowercase_of(text: Seq<char>) -> Seq<char>;

/// `str::to_lowercase` of the standard library: the result is the Unicode
/// lower-case form of the argument and depends on nothing else. What that
/// form is on a given text is not stated here.
#[verifier::external_body]
fn fold_case(text: &str) -> (folded: String)
    ensures
        folded@ == lowercase_of(text@),
{
    text.to_lowercase()
}

/// The name of the binary a command vector invokes: the final path segment
/// of its first element, and the empty name for an empty vector.
pub open spec fn invoked_basename(command_vector: Seq<Seq<char>>) -> Seq<char> {
    if command_vector.len() == 0 {
        Seq::empty()
    } else {
        final_segment(command_vector[0])
    }
}

/// Whether the process runs a binary of the signature's name, letter case
/// aside.
pub open spec fn same_basename(signature: SignatureSpec, process: ProcessSpec) -> bool {
    lowercase_of(invoked_basename(process.command_vector)) == lowercase_of(
        signature.executable_basename,
    )
}

/// Whether `command_vector` ends with exactly the elements of
/// `trailing_args`.
pub open spec fn has_trailing_args(
    command_vector: Seq<Seq<char>>,
    trailing_args: Seq<Seq<char>>,
) -> bool {
    &&& trailing_args.len() <= command_vector.len()
    &&& command_vector.skip(command_vector.len() - trailing_args.len()) == trailing_args
}

/// Whether `process` is an instance of the backend that `signature`
/// describes: the names agree, letter case aside, and the command line ends
/// with the signature's arguments.
pub open spec fn is_backend(signature: SignatureSpec, process: ProcessSpec) -> bool {
    &&& same_basename(signature, process)
    &&& has_trailing_args(process.command_vector, signature.trailing_args)
}

/// Returns the name of the binary that `command_vector` invokes.
pub fn invoked_binary(command_vector: &Vec<String>) -> (name: String)
    ensures
        name@ == invoked_basename(command_vector.deep_view()),
{
    if command_vector.len() == 0 {
        String::new()
    } else {
        basename(command_vector[0].as_str())
    }
}

/// Tells whether `command_vector` ends with exactly the elements of
/// `trailing_args`.
pub fn ends_with_args(command_vector: &Vec<String>, trailing_args: &Vec<String>) -> (found: bool)
    ensures
        found == has_trailing_args(command_vector.deep_view(), trailing_args.deep_view()),
{
    let wanted = trailing_args.len();
    if command_vector.len() < wanted {
        return false;
    }
    let offset = command_vector.len() - wanted;
    let ghost tail = command_vector.deep_view().skip(offset as int);
    let ghost args = trailing_args.deep_view();
    let mut i: usize = 0;
    while i < wanted
        invariant
            i <= wanted,
            wanted == trailing_args.len(),
            offset + wanted == command_vector.len(),
            tail == command_vector.deep_view().skip(offset as int),
            args == trailing_args.deep_view(),
            forall|j: int| 0 <= j < i ==> tail[j] == args[j],
        decreases wanted - i,
    {
        if !(command_vector[offset + i] == trailing_args[i]) {
            assert(tail[i as int] != args[i as int]);
            return false;
        }
        i = i + 1;
    }
    assert(tail =~= args);
    true
}

/// Decides a match from the two names already in lower case: `candidate`
/// from the process, `expected` from the signature. The command line is
/// only looked at when the names agree.
pub fn matches_folded(
    candidate: &String,
    expected: &String,
    command_vector: &Vec<String>,
    trailing_args: &Vec<String>,
) -> (matched: bool)
    ensures
        matched == (candidate@ == expected@ && has_trailing_args(
            command_vector.deep_view(),
            trailing_args.deep_view(),
        )),
{
    if !(*candidate == *expected) {
        return false;
    }
    ends_with_args(command_vector, trailing_args)
}

/// Tells whether `view` is an instance of the backend that `signature`
/// describes.
pub fn matches(signature: &BackendSignature, view: &RunningProcessView) -> (matched: bool)
    ensures
        matched == is_backend(signature@, view@),
{
    let candidate = fold_case(invoked_binary(&view.command_vector).as_str());
    let expected = fold_case(signature.executable_basename.as_str());
    matches_folded(&candidate, &expected, &view.command_vector, &signature.trailing_args)
}

/// A process whose command line does not end with the signature's arguments
/// is never taken for the backend, whatever its binary is called.
pub proof fn lemma_other_arguments_never_match(signature: SignatureSpec, process: ProcessSpec)
    requires
        !has_trailing_args(process.command_vector, signature.trailing_args),
    ensures
        !is_backend(signature, process),
{
}

/// Replacing any one of the trailing arguments of a matching process by a
/// different text makes it stop matching.
pub proof fn lemma_changed_process_argument_breaks_match(
    signature: SignatureSpec,
    process: ProcessSpec,
    position: int,
    replacement: Seq<char>,
)
    requires
        is_backend(signature, process),
        process.command_vector.len() - signature.trailing_args.len() <= position
            < process.command_vector.len(),
        replacement != process.command_vector[position],
    ensures
        !is_backend(
            signature,
            ProcessSpec {
                pid: process.pid,
                command_vector: process.command_vector.update(position, replacement),
            },
        ),
{
    let offset = process.command_vector.len() - signature.trailing_args.len();
    let changed = process.command_vector.update(position, replacement);
    assert(process.command_vector.skip(offset)[position - offset]
        == process.command_vector[position]);
    assert(changed.skip(offset)[position - offset] == replacement);
}

/// Replacing any one of the signature's trailing arguments by a different
/// text makes a matching process stop matching.
pub proof fn lemma_changed_signature_argument_breaks_match(
    signature: SignatureSpec,
    process: ProcessSpec,
    position: int,
    replacement: Seq<char>,
)
    requires
        is_backend(signature, process),
        0 <= position < signature.trailing_args.len(),
        replacement != signature.trailing_args[position],
    ensures
        !is_backend(
            SignatureSpec {
                executable_basename: signature.executable_basename,
                trailing_args: signature.trailing_args.update(position, replacement),
            },
            process,
        ),
{
    let changed = signature.trailing_args.update(position, replacement);
    assert(changed[position] == replacement);
}

/// A process started from a command is recognised by the signature derived
/// from that command, whatever pid it got.
pub proof fn lemma_started_backend_is_recognised(
    command: crate::launcher::CommandSpec,
    pid: u32,
)
    ensures
        is_backend(
            crate::signature::signature_of_command(command),
            ProcessSpec { pid, command_vector: seq![command.executable] + command.args },
        ),
{
    let command_vector = seq![command.executable] + command.args;
    assert(command_vector.skip(1) =~= command.args);
}

} // verus!
