//! The decisions of the inference loop of the model runner.
use vstd::prelude::*;
use vstd::string::*;

use crate::text::{contains_seq, str_contains};

verus! {

/// The marker that closes an instruction; a piece that holds it ends the generation.
pub open spec fn end_marker() -> Seq<char> {
    "[/INST]"@
}

/// Wraps a raw prompt into an instruction for the model: `<s>[INST]\n<prompt>\n[/INST]`.
pub fn instruction_prompt(prompt: &str) -> (full: String)
    ensures
        full@ == "<s>[INST]\n"@ + prompt@ + "\n[/INST]"@,
{
    let mut full = String::from_str("<s>[INST]\n");
    full.append(prompt);
    full.append("\n[/INST]");
    full
}

/// Takes one generated piece into the output.
///
/// A piece that holds `[/INST]` means the model is echoing the instruction marker: it is
/// dropped and `false` says that generation stops.  Any other piece is appended and `true`
/// says that generation goes on.
pub fn accept_piece(output: &mut String, piece: &str) -> (go_on: bool)
    ensures
        go_on == !contains_seq(piece@, end_marker()),
        go_on ==> final(output)@ == old(output)@ + piece@,
        !go_on ==> final(output)@ == old(output)@,
{
    if str_contains(piece, "[/INST]") {
        false
    } else {
        output.append(piece);
        true
    }
}

} // verus!
