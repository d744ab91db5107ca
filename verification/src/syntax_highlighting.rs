//! The language vocabulary a highlighter needs: which lowercase words are
//! instruction keywords. The rendering itself — fonts, colors, layout — is a
//! display-layer concern and lives outside this crate; the display layer
//! walks the text and asks `is_keyword` for each word.

use vstd::prelude::*;

use crate::token::str_eq;

verus! {

/// The fixed instruction vocabulary of the highlighter. The set is part of
/// the language, not of any instance's state, so the type carries no fields.
#[derive(Debug, PartialEq, Eq, Structural, Clone, Copy)]
pub struct Language {
}

/// Whether a lowercase word is one of the instruction keywords the
/// highlighter colors.
pub open spec fn is_keyword_spec(w: Seq<char>) -> bool {
    ||| w == "mov"@
    ||| w == "mvi"@
    ||| w == "lxi"@
    ||| w == "lda"@
    ||| w == "sta"@
    ||| w == "lhld"@
    ||| w == "shld"@
    ||| w == "stax"@
    ||| w == "xchg"@
    ||| w == "add"@
    ||| w == "adi"@
    ||| w == "sub"@
    ||| w == "sui"@
    ||| w == "inr"@
    ||| w == "dcr"@
    ||| w == "inx"@
    ||| w == "dcx"@
    ||| w == "dad"@
    ||| w == "ana"@
    ||| w == "ani"@
    ||| w == "ora"@
    ||| w == "ori"@
    ||| w == "xra"@
    ||| w == "xri"@
    ||| w == "cma"@
    ||| w == "rlc"@
    ||| w == "rrc"@
    ||| w == "ral"@
    ||| w == "rar"@
    ||| w == "push"@
    ||| w == "pop"@
    ||| w == "jmp"@
    ||| w == "jnz"@
    ||| w == "jz"@
    ||| w == "jnc"@
    ||| w == "jc"@
    ||| w == "call"@
    ||| w == "ret"@
    ||| w == "rst"@
    ||| w == "pchl"@
    ||| w == "sphl"@
    ||| w == "xthl"@
    ||| w == "out"@
    ||| w == "in"@
    ||| w == "ei"@
    ||| w == "di"@
    ||| w == "rim"@
    ||| w == "sim"@
    ||| w == "hlt"@
    ||| w == "nop"@
}

impl Language {
    /// The highlighter's language.
    pub fn new() -> (l: Language)
    {
        Language {  }
    }

    /// Whether a word, already lowercased by the caller, is an instruction
    /// keyword.
    #[verifier::rlimit(100)]
    pub fn is_keyword(&self, word: &str) -> (r: bool)
        ensures
            r == is_keyword_spec(word@),
    {
        str_eq(word, "mov") || str_eq(word, "mvi") || str_eq(word, "lxi") || str_eq(word, "lda")
            || str_eq(word, "sta") || str_eq(word, "lhld") || str_eq(word, "shld") || str_eq(
            word,
            "stax",
        ) || str_eq(word, "xchg") || str_eq(word, "add") || str_eq(word, "adi") || str_eq(
            word,
            "sub",
        ) || str_eq(word, "sui") || str_eq(word, "inr") || str_eq(word, "dcr") || str_eq(
            word,
            "inx",
        ) || str_eq(word, "dcx") || str_eq(word, "dad") || str_eq(word, "ana") || str_eq(
            word,
            "ani",
        ) || str_eq(word, "ora") || str_eq(word, "ori") || str_eq(word, "xra") || str_eq(
            word,
            "xri",
        ) || str_eq(word, "cma") || str_eq(word, "rlc") || str_eq(word, "rrc") || str_eq(
            word,
            "ral",
        ) || str_eq(word, "rar") || str_eq(word, "push") || str_eq(word, "pop") || str_eq(
            word,
            "jmp",
        ) || str_eq(word, "jnz") || str_eq(word, "jz") || str_eq(word, "jnc") || str_eq(
            word,
            "jc",
        ) || str_eq(word, "call") || str_eq(word, "ret") || str_eq(word, "rst") || str_eq(
            word,
            "pchl",
        ) || str_eq(word, "sphl") || str_eq(word, "xthl") || str_eq(word, "out") || str_eq(
            word,
            "in",
        ) || str_eq(word, "ei") || str_eq(word, "di") || str_eq(word, "rim") || str_eq(
            word,
            "sim",
        ) || str_eq(word, "hlt") || str_eq(word, "nop")
    }
}

} // verus!
