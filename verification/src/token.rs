//! The tokenizer: scans source text left to right, skipping separators and
//! comments, and produces the token stream the parser consumes. The
//! vocabulary is fixed: words of letters (mnemonics and label uses),
//! one-letter register names, two-hex-digit byte literals, four-digit address
//! literals read as hexadecimal, `name:` label declarations, and the words
//! `true` and `false`. An unrecognized character sequence fails loudly with
//! the offending text and its character position.

use vstd::prelude::*;
use vstd::string::*;

use crate::cpu::{Registers, is_register_char, spec_register_of_char};

verus! {

/// One lexical token.
#[derive(Debug, PartialEq, Clone)]
pub enum Token {
    Bool(bool),
    Word(String),
    Register(Registers),
    Comment,
    Label(String),
    Number(u8),
    Address(u16),
}

/// The mathematical value of a token: names as character sequences.
pub ghost enum TokenV {
    Bool(bool),
    Word(Seq<char>),
    Register(Registers),
    Comment,
    Label(Seq<char>),
    Number(u8),
    Address(u16),
}

impl View for Token {
    type V = TokenV;

    open spec fn view(&self) -> TokenV {
        match self {
            Token::Bool(b) => TokenV::Bool(*b),
            Token::Word(w) => TokenV::Word(w@),
            Token::Register(r) => TokenV::Register(*r),
            Token::Comment => TokenV::Comment,
            Token::Label(l) => TokenV::Label(l@),
            Token::Number(n) => TokenV::Number(*n),
            Token::Address(a) => TokenV::Address(*a),
        }
    }
}

impl DeepView for Token {
    type V = TokenV;

    open spec fn deep_view(&self) -> TokenV {
        self.view()
    }
}

impl Token {
    /// An equal token, rebuilt field by field.
    pub fn duplicate(&self) -> (r: Token)
        ensures
            r@ == self@,
    {
        match self {
            Token::Bool(b) => Token::Bool(*b),
            Token::Word(w) => Token::Word(w.clone()),
            Token::Register(r) => Token::Register(*r),
            Token::Comment => Token::Comment,
            Token::Label(l) => Token::Label(l.clone()),
            Token::Number(n) => Token::Number(*n),
            Token::Address(a) => Token::Address(*a),
        }
    }
}

/// An unrecognized character sequence: the offending text and the character
/// position where it starts.
#[derive(Debug, PartialEq, Clone)]
pub struct LexError {
    pub text: String,
    pub pos: usize,
}

/// The mathematical value of a lexical error.
pub ghost struct LexErrorV {
    pub text: Seq<char>,
    pub pos: int,
}

impl View for LexError {
    type V = LexErrorV;

    open spec fn view(&self) -> LexErrorV {
        LexErrorV { text: self.text@, pos: self.pos as int }
    }
}

impl DeepView for LexError {
    type V = LexErrorV;

    open spec fn deep_view(&self) -> LexErrorV {
        self.view()
    }
}

/// Separator characters the tokenizer skips: blank, tab, newline, comma.
pub open spec fn is_skip_char(c: char) -> bool {
    c == ' ' || c == '\t' || c == '\n' || c == ','
}

/// An ASCII letter.
pub open spec fn is_letter(c: char) -> bool {
    (97 <= c as u32 && c as u32 <= 122) || (65 <= c as u32 && c as u32 <= 90)
}

/// An ASCII decimal digit.
pub open spec fn is_decimal(c: char) -> bool {
    48 <= c as u32 && c as u32 <= 57
}

/// An uppercase hexadecimal letter `A` through `F`.
pub open spec fn is_upper_hex_letter(c: char) -> bool {
    65 <= c as u32 && c as u32 <= 70
}

/// A hexadecimal digit: decimal, or an uppercase letter `A` through `F`.
pub open spec fn is_hex_digit(c: char) -> bool {
    is_decimal(c) || is_upper_hex_letter(c)
}

/// The numeric value of a hexadecimal digit.
pub open spec fn digit_val(c: char) -> int {
    if is_decimal(c) {
        c as u32 - 48
    } else {
        c as u32 - 55
    }
}

/// The byte a two-hex-digit literal denotes.
pub open spec fn hex2_val(c1: char, c2: char) -> u8 {
    (digit_val(c1) * 16 + digit_val(c2)) as u8
}

/// The address a four-digit literal denotes; the digits are read as
/// hexadecimal, so `2501` denotes 0x2501.
pub open spec fn dec4_val(c1: char, c2: char, c3: char, c4: char) -> u16 {
    (digit_val(c1) * 0x1000 + digit_val(c2) * 0x100 + digit_val(c3) * 0x10 + digit_val(c4)) as u16
}

/// The first position at or after `i` that does not hold a letter.
pub open spec fn letter_run_end(s: Seq<char>, i: int) -> int
    decreases s.len() - i,
    when 0 <= i <= s.len()
{
    if i >= s.len() || !is_letter(s[i]) {
        i
    } else {
        letter_run_end(s, i + 1)
    }
}

/// The run of letters starting at `i` ends between `i` and the end of the
/// text.
pub proof fn lemma_letter_run_end_bounds(s: Seq<char>, i: int)
    requires
        0 <= i <= s.len(),
    ensures
        i <= letter_run_end(s, i) <= s.len(),
    decreases s.len() - i,
{
    if i < s.len() && is_letter(s[i]) {
        lemma_letter_run_end_bounds(s, i + 1);
    }
}

/// The first position at or after `i` that holds a newline, or the text's
/// end: where a comment stops.
pub open spec fn line_end(s: Seq<char>, i: int) -> int
    decreases s.len() - i,
    when 0 <= i <= s.len()
{
    if i >= s.len() || s[i] == '\n' {
        i
    } else {
        line_end(s, i + 1)
    }
}

/// A comment ends between its start and the end of the text.
pub proof fn lemma_line_end_bounds(s: Seq<char>, i: int)
    requires
        0 <= i <= s.len(),
    ensures
        i <= line_end(s, i) <= s.len(),
    decreases s.len() - i,
{
    if i < s.len() && s[i] != '\n' {
        lemma_line_end_bounds(s, i + 1);
    }
}

/// The first position at or after `i` that holds a separator or a comment
/// marker: where the offending text of a lexical error stops.
pub open spec fn err_run_end(s: Seq<char>, i: int) -> int
    decreases s.len() - i,
    when 0 <= i <= s.len()
{
    if i >= s.len() || is_skip_char(s[i]) || s[i] == ';' {
        i
    } else {
        err_run_end(s, i + 1)
    }
}

/// The offending text of a lexical error ends between its start and the end
/// of the text.
pub proof fn lemma_err_run_end_bounds(s: Seq<char>, i: int)
    requires
        0 <= i <= s.len(),
    ensures
        i <= err_run_end(s, i) <= s.len(),
    decreases s.len() - i,
{
    if i < s.len() && !is_skip_char(s[i]) && s[i] != ';' {
        lemma_err_run_end_bounds(s, i + 1);
    }
}

/// A token prepended to the outcome of tokenizing the rest of the text.
pub open spec fn lex_cons(t: TokenV, rest: Result<Seq<TokenV>, LexErrorV>) -> Result<
    Seq<TokenV>,
    LexErrorV,
> {
    match rest {
        Ok(ts) => Ok(seq![t] + ts),
        Err(e) => Err(e),
    }
}

/// The tokens of the text from position `i` on.
///
/// Separators and comments are skipped. A run of letters is, in this order: a
/// label declaration when a colon follows it; the word `true` or `false`; a
/// register name when it is a single register letter; a byte literal when it
/// is exactly two uppercase hexadecimal letters; a word of at most eight
/// letters; otherwise an error. A run starting with a digit is an address
/// literal when four decimal digits stand there, a byte literal when two
/// hexadecimal digits do, and otherwise an error. Any other character is an
/// error carrying the text up to the next separator.
pub open spec fn spec_lex(s: Seq<char>, i: int) -> Result<Seq<TokenV>, LexErrorV>
    decreases s.len() - i,
    when 0 <= i <= s.len()
    via spec_lex_decreases
{
    if i >= s.len() {
        Ok(Seq::empty())
    } else if is_skip_char(s[i]) {
        spec_lex(s, i + 1)
    } else if s[i] == ';' {
        spec_lex(s, line_end(s, i + 1))
    } else if is_letter(s[i]) {
        let j = letter_run_end(s, i);
        let w = s.subrange(i, j);
        if j < s.len() && s[j] == ':' {
            lex_cons(TokenV::Label(w), spec_lex(s, j + 1))
        } else if w == "true"@ {
            lex_cons(TokenV::Bool(true), spec_lex(s, j))
        } else if w == "false"@ {
            lex_cons(TokenV::Bool(false), spec_lex(s, j))
        } else if j - i == 1 && is_register_char(s[i]) {
            lex_cons(TokenV::Register(spec_register_of_char(s[i])), spec_lex(s, j))
        } else if j - i == 2 && is_upper_hex_letter(s[i]) && is_upper_hex_letter(s[i + 1]) {
            lex_cons(TokenV::Number(hex2_val(s[i], s[i + 1])), spec_lex(s, j))
        } else if j - i <= 8 {
            lex_cons(TokenV::Word(w), spec_lex(s, j))
        } else {
            Err(LexErrorV { text: w, pos: i })
        }
    } else if is_decimal(s[i]) {
        if i + 4 <= s.len() && is_decimal(s[i + 1]) && is_decimal(s[i + 2]) && is_decimal(
            s[i + 3],
        ) {
            lex_cons(TokenV::Address(dec4_val(s[i], s[i + 1], s[i + 2], s[i + 3])), spec_lex(s, i + 4))
        } else if i + 2 <= s.len() && is_hex_digit(s[i + 1]) {
            lex_cons(TokenV::Number(hex2_val(s[i], s[i + 1])), spec_lex(s, i + 2))
        } else {
            Err(LexErrorV { text: s.subrange(i, err_run_end(s, i)), pos: i })
        }
    } else {
        Err(LexErrorV { text: s.subrange(i, err_run_end(s, i)), pos: i })
    }
}

#[via_fn]
proof fn spec_lex_decreases(s: Seq<char>, i: int) {
    if 0 <= i && i < s.len() {
        if is_skip_char(s[i]) {
        } else if s[i] == ';' {
            lemma_line_end_bounds(s, i + 1);
        } else if is_letter(s[i]) {
            lemma_letter_run_end_bounds(s, i + 1);
            assert(letter_run_end(s, i) == letter_run_end(s, i + 1));
        }
    }
}

/// The tokens of a whole text.
pub open spec fn spec_tokenize(s: Seq<char>) -> Result<Seq<TokenV>, LexErrorV> {
    spec_lex(s, 0)
}

/// Already-produced tokens joined with the outcome of tokenizing the rest.
pub open spec fn lex_combine(pre: Seq<TokenV>, rest: Result<Seq<TokenV>, LexErrorV>) -> Result<
    Seq<TokenV>,
    LexErrorV,
> {
    match rest {
        Ok(ts) => Ok(pre + ts),
        Err(e) => Err(e),
    }
}

proof fn lemma_combine_cons(pre: Seq<TokenV>, t: TokenV, rest: Result<Seq<TokenV>, LexErrorV>)
    ensures
        lex_combine(pre.push(t), rest) == lex_combine(pre, lex_cons(t, rest)),
{
    match rest {
        Ok(ts) => {
            assert(pre.push(t) + ts =~= pre + (seq![t] + ts));
        },
        Err(_) => {},
    }
}

/// Whether two string slices hold the same characters.
pub fn str_eq(a: &str, b: &str) -> (r: bool)
    ensures
        r == (a@ == b@),
{
    let alen = a.unicode_len();
    let blen = b.unicode_len();
    if alen != blen {
        return false;
    }
    let mut k: usize = 0;
    while k < alen
        invariant
            k <= alen,
            alen == a@.len(),
            alen == b@.len(),
            forall|t: int| 0 <= t < k ==> a@[t] == b@[t],
        decreases alen - k,
    {
        if a.get_char(k) != b.get_char(k) {
            return false;
        }
        k += 1;
    }
    proof {
        assert(a@ =~= b@);
    }
    true
}

fn is_skip_char_exec(c: char) -> (r: bool)
    ensures
        r == is_skip_char(c),
{
    c == ' ' || c == '\t' || c == '\n' || c == ','
}

fn is_letter_exec(c: char) -> (r: bool)
    ensures
        r == is_letter(c),
{
    let u = c as u32;
    (97 <= u && u <= 122) || (65 <= u && u <= 90)
}

fn is_decimal_exec(c: char) -> (r: bool)
    ensures
        r == is_decimal(c),
{
    let u = c as u32;
    48 <= u && u <= 57
}

fn is_upper_hex_letter_exec(c: char) -> (r: bool)
    ensures
        r == is_upper_hex_letter(c),
{
    let u = c as u32;
    65 <= u && u <= 70
}

fn is_hex_digit_exec(c: char) -> (r: bool)
    ensures
        r == is_hex_digit(c),
{
    is_decimal_exec(c) || is_upper_hex_letter_exec(c)
}

fn is_register_char_exec(c: char) -> (r: bool)
    ensures
        r == is_register_char(c),
{
    c == 'A' || c == 'B' || c == 'C' || c == 'D' || c == 'E' || c == 'H' || c == 'L' || c == 'M'
}

/// The numeric value of a hexadecimal digit.
fn hex_char_val(c: char) -> (v: u8)
    requires
        is_hex_digit(c),
    ensures
        v as int == digit_val(c),
        v <= 15,
{
    let u = c as u32;
    if u >= 65 {
        (u - 55) as u8
    } else {
        (u - 48) as u8
    }
}

fn letter_run_end_exec(src: &str, i: usize) -> (j: usize)
    requires
        i <= src@.len(),
    ensures
        j == letter_run_end(src@, i as int),
        i <= j <= src@.len(),
        i < src@.len() && is_letter(src@[i as int]) ==> j >= i + 1,
{
    let n = src.unicode_len();
    let mut j = i;
    while j < n && is_letter_exec(src.get_char(j))
        invariant
            i <= j <= n,
            n == src@.len(),
            letter_run_end(src@, i as int) == letter_run_end(src@, j as int),
        decreases n - j,
    {
        j += 1;
    }
    proof {
        if i < src@.len() && is_letter(src@[i as int]) {
            lemma_letter_run_end_bounds(src@, i + 1);
            assert(letter_run_end(src@, i as int) == letter_run_end(src@, i + 1));
        }
    }
    j
}

fn line_end_exec(src: &str, i: usize) -> (j: usize)
    requires
        i <= src@.len(),
    ensures
        j == line_end(src@, i as int),
        i <= j <= src@.len(),
{
    let n = src.unicode_len();
    let mut j = i;
    while j < n && src.get_char(j) != '\n'
        invariant
            i <= j <= n,
            n == src@.len(),
            line_end(src@, i as int) == line_end(src@, j as int),
        decreases n - j,
    {
        j += 1;
    }
    j
}

fn err_run_end_exec(src: &str, i: usize) -> (j: usize)
    requires
        i <= src@.len(),
    ensures
        j == err_run_end(src@, i as int),
        i <= j <= src@.len(),
{
    let n = src.unicode_len();
    let mut j = i;
    while j < n && !is_skip_char_exec(src.get_char(j)) && src.get_char(j) != ';'
        invariant
            i <= j <= n,
            n == src@.len(),
            err_run_end(src@, i as int) == err_run_end(src@, j as int),
        decreases n - j,
    {
        j += 1;
    }
    j
}

/// Tokenizes source text. Succeeds with the token stream exactly when every
/// character sequence in the text belongs to the vocabulary; otherwise fails
/// with the first unrecognized text and its character position.
pub fn tokenize(src: &str) -> (r: Result<Vec<Token>, LexError>)
    ensures
        match r {
            Ok(toks) => spec_tokenize(src@) == Ok::<Seq<TokenV>, LexErrorV>(toks.deep_view()),
            Err(e) => spec_tokenize(src@) == Err::<Seq<TokenV>, LexErrorV>(e@),
        },
{
    let n = src.unicode_len();
    let mut toks: Vec<Token> = Vec::new();
    let mut i: usize = 0;
    while i < n
        invariant
            i <= n,
            n == src@.len(),
            lex_combine(toks.deep_view(), spec_lex(src@, i as int)) == spec_lex(src@, 0),
        decreases n - i,
    {
        let ghost pre = toks.deep_view();
        let c = src.get_char(i);
        if is_skip_char_exec(c) {
            i += 1;
        } else if c == ';' {
            i = line_end_exec(src, i + 1);
        } else if is_letter_exec(c) {
            let j = letter_run_end_exec(src, i);
            let w = src.substring_char(i, j);
            if j < n && src.get_char(j) == ':' {
                let tok = Token::Label(String::from_str(w));
                proof {
                    lemma_combine_cons(pre, tok@, spec_lex(src@, j + 1));
                    assert(toks.deep_view().push(tok@) =~= toks.deep_view() + seq![tok@]);
                }
                toks.push(tok);
                proof {
                    assert(toks.deep_view() =~= pre.push(TokenV::Label(w@)));
                }
                i = j + 1;
            } else {
                let tok: Token;
                if str_eq(w, "true") {
                    tok = Token::Bool(true);
                } else if str_eq(w, "false") {
                    tok = Token::Bool(false);
                } else if j - i == 1 && is_register_char_exec(c) {
                    tok = Token::Register(Registers::from_char(c));
                } else if j - i == 2 && is_upper_hex_letter_exec(c) && is_upper_hex_letter_exec(
                    src.get_char(i + 1),
                ) {
                    let v1 = hex_char_val(c);
                    let v2 = hex_char_val(src.get_char(i + 1));
                    tok = Token::Number(v1 * 16 + v2);
                } else if j - i <= 8 {
                    tok = Token::Word(String::from_str(w));
                } else {
                    return Err(LexError { text: String::from_str(w), pos: i });
                }
                proof {
                    lemma_combine_cons(pre, tok@, spec_lex(src@, j as int));
                }
                toks.push(tok);
                proof {
                    assert(toks.deep_view() =~= pre.push(toks@[toks@.len() - 1]@));
                }
                i = j;
            }
        } else if is_decimal_exec(c) {
            if n - i >= 4 && is_decimal_exec(src.get_char(i + 1)) && is_decimal_exec(
                src.get_char(i + 2),
            ) && is_decimal_exec(src.get_char(i + 3)) {
                let d1 = hex_char_val(c);
                let d2 = hex_char_val(src.get_char(i + 1));
                let d3 = hex_char_val(src.get_char(i + 2));
                let d4 = hex_char_val(src.get_char(i + 3));
                let v: u16 = (d1 as u16) * 0x1000 + (d2 as u16) * 0x100 + (d3 as u16) * 0x10
                    + (d4 as u16);
                let tok = Token::Address(v);
                proof {
                    lemma_combine_cons(pre, tok@, spec_lex(src@, i + 4));
                }
                toks.push(tok);
                proof {
                    assert(toks.deep_view() =~= pre.push(toks@[toks@.len() - 1]@));
                }
                i = i + 4;
            } else if n - i >= 2 && is_hex_digit_exec(src.get_char(i + 1)) {
                let v1 = hex_char_val(c);
                let v2 = hex_char_val(src.get_char(i + 1));
                let tok = Token::Number(v1 * 16 + v2);
                proof {
                    lemma_combine_cons(pre, tok@, spec_lex(src@, i + 2));
                }
                toks.push(tok);
                proof {
                    assert(toks.deep_view() =~= pre.push(toks@[toks@.len() - 1]@));
                }
                i = i + 2;
            } else {
                let j = err_run_end_exec(src, i);
                return Err(LexError { text: String::from_str(src.substring_char(i, j)), pos: i });
            }
        } else {
            let j = err_run_end_exec(src, i);
            return Err(LexError { text: String::from_str(src.substring_char(i, j)), pos: i });
        }
    }
    proof {
        assert(toks.deep_view() + Seq::<TokenV>::empty() =~= toks.deep_view());
    }
    Ok(toks)
}

} // verus!
