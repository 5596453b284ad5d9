//! The lexer: source text in, an ordered token sequence out.
//!
//! `spec_tokenize` is the mathematical scanner that the contracts speak
//! about; `tokenize` is the executable one, proved to return exactly what
//! `spec_tokenize` says for every input.

use crate::ast::{SpecToken, Token, tokens_view};
use vstd::prelude::*;
use vstd::string::StrSliceExecFns;

verus! {

/// A lexical error.
#[derive(Debug)]
pub enum LexErr {
    /// A malformed or overflowing integer literal; the payload is the
    /// offending run of characters.
    InvalidInt(String),
    /// A string literal whose closing quote is missing.
    UnterminatedString,
    /// A character that starts no token.
    UnexpectedChar(char),
}

/// The mathematical model of a lexical error.
pub enum SpecLexErr {
    InvalidInt(Seq<char>),
    UnterminatedString,
    UnexpectedChar(char),
}

impl View for LexErr {
    type V = SpecLexErr;

    open spec fn view(&self) -> SpecLexErr {
        match self {
            LexErr::InvalidInt(s) => SpecLexErr::InvalidInt(s@),
            LexErr::UnterminatedString => SpecLexErr::UnterminatedString,
            LexErr::UnexpectedChar(c) => SpecLexErr::UnexpectedChar(*c),
        }
    }
}

/// Whitespace, which separates tokens and is otherwise insignificant.
pub open spec fn is_space_char(c: char) -> bool {
    c == ' ' || c == '\t' || c == '\n' || c == '\r'
}

/// An ASCII digit.
pub open spec fn is_digit_char(c: char) -> bool {
    48 <= c as int && c as int <= 57
}

/// The numeric value of an ASCII digit.
pub open spec fn digit_val(c: char) -> int {
    c as int - 48
}

/// A character that may start an identifier or keyword: an ASCII letter or
/// an underscore.
pub open spec fn is_ident_start_char(c: char) -> bool {
    (65 <= c as int && c as int <= 90) || (97 <= c as int && c as int <= 122) || c == '_'
}

/// A character that may continue an identifier or keyword.
pub open spec fn is_ident_char(c: char) -> bool {
    is_ident_start_char(c) || is_digit_char(c)
}

/// The first position at or after `i` that is past the maximal run of ASCII
/// digits starting at `i`.
pub open spec fn digit_run_end(s: Seq<char>, i: int) -> int
    decreases s.len() - i,
{
    if i < 0 || i >= s.len() || !is_digit_char(s[i]) {
        i
    } else {
        digit_run_end(s, i + 1)
    }
}

/// The first position at or after `i` that is past the maximal run of
/// identifier characters starting at `i`.
pub open spec fn ident_run_end(s: Seq<char>, i: int) -> int
    decreases s.len() - i,
{
    if i < 0 || i >= s.len() || !is_ident_char(s[i]) {
        i
    } else {
        ident_run_end(s, i + 1)
    }
}

/// The position of the first double quote at or after `i`, or the length of
/// `s` if there is none.
pub open spec fn string_end(s: Seq<char>, i: int) -> int
    decreases s.len() - i,
{
    if i < 0 || i >= s.len() {
        s.len() as int
    } else if s[i] == '"' {
        i
    } else {
        string_end(s, i + 1)
    }
}

pub proof fn lemma_digit_run_end_bounds(s: Seq<char>, i: int)
    requires
        0 <= i <= s.len(),
    ensures
        i <= digit_run_end(s, i) <= s.len(),
    decreases s.len() - i,
{
    if i < s.len() && is_digit_char(s[i]) {
        lemma_digit_run_end_bounds(s, i + 1);
    }
}

/// Every character of a maximal digit run is a digit.
pub proof fn lemma_digit_run_end_digits(s: Seq<char>, i: int)
    requires
        0 <= i <= s.len(),
    ensures
        forall|k: int| i <= k < digit_run_end(s, i) ==> is_digit_char(s[k]),
    decreases s.len() - i,
{
    lemma_digit_run_end_bounds(s, i);
    if i < s.len() && is_digit_char(s[i]) {
        lemma_digit_run_end_digits(s, i + 1);
    }
}

pub proof fn lemma_ident_run_end_bounds(s: Seq<char>, i: int)
    requires
        0 <= i <= s.len(),
    ensures
        i <= ident_run_end(s, i) <= s.len(),
    decreases s.len() - i,
{
    if i < s.len() && is_ident_char(s[i]) {
        lemma_ident_run_end_bounds(s, i + 1);
    }
}

pub proof fn lemma_string_end_bounds(s: Seq<char>, i: int)
    requires
        0 <= i <= s.len(),
    ensures
        i <= string_end(s, i) <= s.len(),
    decreases s.len() - i,
{
    if i < s.len() && s[i] != '"' {
        lemma_string_end_bounds(s, i + 1);
    }
}

/// A maximal digit run is delimited exactly by its first non-digit.
pub proof fn lemma_digit_run_end_exact(s: Seq<char>, i: int, j: int)
    requires
        0 <= i <= j <= s.len(),
        forall|k: int| i <= k < j ==> is_digit_char(s[k]),
        j < s.len() ==> !is_digit_char(s[j]),
    ensures
        digit_run_end(s, i) == j,
    decreases j - i,
{
    if i < j {
        lemma_digit_run_end_exact(s, i + 1, j);
    }
}

/// A maximal identifier run is delimited exactly by its first non-identifier
/// character.
pub proof fn lemma_ident_run_end_exact(s: Seq<char>, i: int, j: int)
    requires
        0 <= i <= j <= s.len(),
        forall|k: int| i <= k < j ==> is_ident_char(s[k]),
        j < s.len() ==> !is_ident_char(s[j]),
    ensures
        ident_run_end(s, i) == j,
    decreases j - i,
{
    if i < j {
        lemma_ident_run_end_exact(s, i + 1, j);
    }
}

/// The first double quote at or after `i` is exactly the first position not
/// covered by quote-free characters.
pub proof fn lemma_string_end_exact(s: Seq<char>, i: int, j: int)
    requires
        0 <= i <= j < s.len(),
        forall|k: int| i <= k < j ==> s[k] != '"',
        s[j] == '"',
    ensures
        string_end(s, i) == j,
    decreases j - i,
{
    if i < j {
        lemma_string_end_exact(s, i + 1, j);
    }
}

/// Every character of a maximal identifier run is an identifier character.
pub proof fn lemma_ident_run_end_chars(s: Seq<char>, i: int)
    requires
        0 <= i <= s.len(),
    ensures
        forall|k: int| i <= k < ident_run_end(s, i) ==> is_ident_char(s[k]),
    decreases s.len() - i,
{
    lemma_ident_run_end_bounds(s, i);
    if i < s.len() && is_ident_char(s[i]) {
        lemma_ident_run_end_chars(s, i + 1);
    }
}

/// No character before the first double quote is a double quote.
pub proof fn lemma_string_end_chars(s: Seq<char>, i: int)
    requires
        0 <= i <= s.len(),
    ensures
        forall|k: int| i <= k < string_end(s, i) ==> s[k] != '"',
    decreases s.len() - i,
{
    lemma_string_end_bounds(s, i);
    if i < s.len() && s[i] != '"' {
        lemma_string_end_chars(s, i + 1);
    }
}

/// The value of a run of ASCII digits read as a decimal number.
pub open spec fn digits_val(s: Seq<char>) -> int
    decreases s.len(),
{
    if s.len() == 0 {
        0
    } else {
        digits_val(s.drop_last()) * 10 + digit_val(s.last())
    }
}

/// A decimal digit run denotes a nonnegative number.
pub proof fn lemma_digits_val_nonneg(s: Seq<char>)
    requires
        forall|k: int| 0 <= k < s.len() ==> is_digit_char(s[k]),
    ensures
        digits_val(s) >= 0,
    decreases s.len(),
{
    if s.len() > 0 {
        lemma_digits_val_nonneg(s.drop_last());
    }
}

/// The keyword or identifier token that a maximal identifier run denotes.
pub open spec fn word_token(w: Seq<char>) -> SpecToken {
    if w == seq!['i', 'f'] {
        SpecToken::If
    } else if w == seq!['e', 'l', 's', 'e'] {
        SpecToken::Else
    } else if w == seq!['l', 'e', 't'] {
        SpecToken::Let
    } else if w == seq!['t', 'r', 'u', 'e'] {
        SpecToken::Bool(true)
    } else if w == seq!['f', 'a', 'l', 's', 'e'] {
        SpecToken::Bool(false)
    } else if w == seq!['f', 'n'] {
        SpecToken::Fn
    } else if w == seq!['i', 'n', 't'] {
        SpecToken::IntType
    } else if w == seq!['b', 'o', 'o', 'l'] {
        SpecToken::BoolType
    } else if w == seq!['s', 't', 'r'] {
        SpecToken::StrType
    } else {
        SpecToken::Symbol(w)
    }
}

/// The token starting at position `i` of `s` (a position that holds no
/// whitespace), together with the position just past it, or the lexical
/// error at that position.
pub open spec fn scan_token(s: Seq<char>, i: int) -> Result<(SpecToken, int), SpecLexErr> {
    let c = s[i];
    if is_digit_char(c) {
        let j = digit_run_end(s, i);
        let v = digits_val(s.subrange(i, j));
        if v <= i64::MAX as int {
            Ok((SpecToken::Int(v), j))
        } else {
            Err(SpecLexErr::InvalidInt(s.subrange(i, j)))
        }
    } else if c == '-' {
        if i + 1 < s.len() && s[i + 1] == '>' {
            Ok((SpecToken::RightArrow, i + 2))
        } else {
            let j = digit_run_end(s, i + 1);
            if j == i + 1 {
                Err(SpecLexErr::InvalidInt(s.subrange(i, i + 1)))
            } else {
                let v = digits_val(s.subrange(i + 1, j));
                if v <= i64::MAX as int + 1 {
                    Ok((SpecToken::Int(-v), j))
                } else {
                    Err(SpecLexErr::InvalidInt(s.subrange(i, j)))
                }
            }
        }
    } else if c == '+' {
        if i + 1 < s.len() && s[i + 1] == '+' {
            Ok((SpecToken::Concat, i + 2))
        } else {
            Ok((SpecToken::Plus, i + 1))
        }
    } else if c == '<' {
        Ok((SpecToken::LessThan, i + 1))
    } else if c == '(' {
        Ok((SpecToken::LeftParen, i + 1))
    } else if c == ')' {
        Ok((SpecToken::RightParen, i + 1))
    } else if c == '{' {
        Ok((SpecToken::LeftBrace, i + 1))
    } else if c == '}' {
        Ok((SpecToken::RightBrace, i + 1))
    } else if c == ':' {
        Ok((SpecToken::Colon, i + 1))
    } else if c == '=' {
        Ok((SpecToken::Equal, i + 1))
    } else if c == '"' {
        let j = string_end(s, i + 1);
        if j >= s.len() {
            Err(SpecLexErr::UnterminatedString)
        } else {
            Ok((SpecToken::Str(s.subrange(i + 1, j)), j + 1))
        }
    } else if is_ident_start_char(c) {
        let j = ident_run_end(s, i);
        Ok((word_token(s.subrange(i, j)), j))
    } else {
        Err(SpecLexErr::UnexpectedChar(c))
    }
}

/// A scanned token covers at least one character and stays within the text.
pub proof fn lemma_scan_token_bounds(s: Seq<char>, i: int)
    requires
        0 <= i < s.len(),
    ensures
        scan_token(s, i) matches Ok((t, j)) ==> i < j <= s.len(),
{
    let c = s[i];
    if is_digit_char(c) {
        lemma_digit_run_end_bounds(s, i + 1);
        assert(digit_run_end(s, i) == digit_run_end(s, i + 1));
    } else if c == '-' {
        if !(i + 1 < s.len() && s[i + 1] == '>') {
            lemma_digit_run_end_bounds(s, i + 1);
        }
    } else if c == '"' {
        lemma_string_end_bounds(s, i + 1);
    } else if is_ident_start_char(c) {
        lemma_ident_run_end_bounds(s, i + 1);
        assert(ident_run_end(s, i) == ident_run_end(s, i + 1));
    }
}

/// The token sequence of `s` from position `i` on: whitespace is skipped,
/// tokens are scanned left to right, and the first lexical error aborts the
/// scan.
pub open spec fn spec_tokenize_from(s: Seq<char>, i: int) -> Result<Seq<SpecToken>, SpecLexErr>
    decreases s.len() - i,
    via spec_tokenize_from_dec
{
    if i < 0 || i >= s.len() {
        Ok(Seq::empty())
    } else if is_space_char(s[i]) {
        spec_tokenize_from(s, i + 1)
    } else {
        match scan_token(s, i) {
            Err(e) => Err(e),
            Ok((t, j)) => match spec_tokenize_from(s, j) {
                Err(e) => Err(e),
                Ok(rest) => Ok(seq![t] + rest),
            },
        }
    }
}

#[via_fn]
proof fn spec_tokenize_from_dec(s: Seq<char>, i: int) {
    if 0 <= i < s.len() {
        lemma_scan_token_bounds(s, i);
    }
}

/// The token sequence of a whole source text, or its first lexical error.
pub open spec fn spec_tokenize(s: Seq<char>) -> Result<Seq<SpecToken>, SpecLexErr> {
    spec_tokenize_from(s, 0)
}

fn is_space(c: char) -> (b: bool)
    ensures
        b == is_space_char(c),
{
    c == ' ' || c == '\t' || c == '\n' || c == '\r'
}

fn is_digit(c: char) -> (b: bool)
    ensures
        b == is_digit_char(c),
{
    let u = c as u32;
    48 <= u && u <= 57
}

fn is_ident_start(c: char) -> (b: bool)
    ensures
        b == is_ident_start_char(c),
{
    let u = c as u32;
    (65 <= u && u <= 90) || (97 <= u && u <= 122) || c == '_'
}

fn is_ident(c: char) -> (b: bool)
    ensures
        b == is_ident_char(c),
{
    is_ident_start(c) || is_digit(c)
}

/// The end of the maximal digit run starting at `i`.
fn find_digit_run_end(input: &str, n: usize, i: usize) -> (j: usize)
    requires
        n == input@.len(),
        i <= n,
    ensures
        j == digit_run_end(input@, i as int),
        i <= j <= n,
{
    let mut j: usize = i;
    while j < n && is_digit(input.get_char(j))
        invariant
            n == input@.len(),
            i <= j <= n,
            digit_run_end(input@, i as int) == digit_run_end(input@, j as int),
        decreases n - j,
    {
        j = j + 1;
    }
    j
}

/// The end of the maximal identifier run starting at `i`.
fn find_ident_run_end(input: &str, n: usize, i: usize) -> (j: usize)
    requires
        n == input@.len(),
        i <= n,
    ensures
        j == ident_run_end(input@, i as int),
        i <= j <= n,
{
    let mut j: usize = i;
    while j < n && is_ident(input.get_char(j))
        invariant
            n == input@.len(),
            i <= j <= n,
            ident_run_end(input@, i as int) == ident_run_end(input@, j as int),
        decreases n - j,
    {
        j = j + 1;
    }
    j
}

/// The position of the first double quote at or after `i`, or `n`.
fn find_string_end(input: &str, n: usize, i: usize) -> (j: usize)
    requires
        n == input@.len(),
        i <= n,
    ensures
        j == string_end(input@, i as int),
        i <= j <= n,
{
    let mut j: usize = i;
    while j < n && input.get_char(j) != '"'
        invariant
            n == input@.len(),
            i <= j <= n,
            string_end(input@, i as int) == string_end(input@, j as int),
        decreases n - j,
    {
        j = j + 1;
    }
    j
}

/// The value of the digit run `input[i..j]`, clamped just above `limit` so
/// that an overflowing literal is detected without unbounded arithmetic.
fn digits_value_clamped(input: &str, i: usize, j: usize, limit: i128) -> (acc: i128)
    requires
        i <= j <= input@.len(),
        forall|k: int| i <= k < j ==> is_digit_char(input@[k]),
        0 < limit <= 0x8000_0000_0000_0000i128,
    ensures
        digits_val(input@.subrange(i as int, j as int)) <= limit ==> acc == digits_val(
            input@.subrange(i as int, j as int),
        ),
        digits_val(input@.subrange(i as int, j as int)) > limit ==> acc > limit,
{
    let s = Ghost(input@);
    let mut acc: i128 = 0;
    let mut k: usize = i;
    while k < j
        invariant
            i <= k <= j <= s@.len(),
            s@ == input@,
            forall|m: int| i <= m < j ==> is_digit_char(s@[m]),
            0 < limit <= 0x8000_0000_0000_0000i128,
            0 <= acc <= 10 * limit + 9,
            acc == digits_val(s@.subrange(i as int, k as int)) || (acc == limit + 1
                && digits_val(s@.subrange(i as int, k as int)) > limit),
        decreases j - k,
    {
        let ghost pfx = s@.subrange(i as int, k as int);
        let ghost pfx2 = s@.subrange(i as int, k as int + 1);
        proof {
            assert(pfx2.drop_last() =~= pfx);
            assert(digits_val(pfx2) == digits_val(pfx) * 10 + digit_val(s@[k as int]));
            lemma_digits_val_nonneg(pfx);
            assert(digits_val(pfx) * 10 >= digits_val(pfx)) by (nonlinear_arith)
                requires digits_val(pfx) >= 0;
        }
        let d = (input.get_char(k) as u32 - 48) as i128;
        if acc > limit {
            acc = limit + 1;
        } else {
            acc = acc * 10 + d;
        }
        k = k + 1;
    }
    acc
}

/// The keyword or identifier token that a maximal identifier run denotes.
fn classify_word(w: &str) -> (t: Token)
    ensures
        t@ == word_token(w@),
{
    let len = w.unicode_len();
    if len == 2 && w.get_char(0) == 'i' && w.get_char(1) == 'f' {
        proof { assert(w@ =~= seq!['i', 'f']); }
        Token::If
    } else if len == 4 && w.get_char(0) == 'e' && w.get_char(1) == 'l' && w.get_char(2) == 's'
        && w.get_char(3) == 'e' {
        proof { assert(w@ =~= seq!['e', 'l', 's', 'e']); }
        Token::Else
    } else if len == 3 && w.get_char(0) == 'l' && w.get_char(1) == 'e' && w.get_char(2) == 't' {
        proof { assert(w@ =~= seq!['l', 'e', 't']); }
        Token::Let
    } else if len == 4 && w.get_char(0) == 't' && w.get_char(1) == 'r' && w.get_char(2) == 'u'
        && w.get_char(3) == 'e' {
        proof { assert(w@ =~= seq!['t', 'r', 'u', 'e']); }
        Token::Bool(true)
    } else if len == 5 && w.get_char(0) == 'f' && w.get_char(1) == 'a' && w.get_char(2) == 'l'
        && w.get_char(3) == 's' && w.get_char(4) == 'e' {
        proof { assert(w@ =~= seq!['f', 'a', 'l', 's', 'e']); }
        Token::Bool(false)
    } else if len == 2 && w.get_char(0) == 'f' && w.get_char(1) == 'n' {
        proof { assert(w@ =~= seq!['f', 'n']); }
        Token::Fn
    } else if len == 3 && w.get_char(0) == 'i' && w.get_char(1) == 'n' && w.get_char(2) == 't' {
        proof { assert(w@ =~= seq!['i', 'n', 't']); }
        Token::IntType
    } else if len == 4 && w.get_char(0) == 'b' && w.get_char(1) == 'o' && w.get_char(2) == 'o'
        && w.get_char(3) == 'l' {
        proof { assert(w@ =~= seq!['b', 'o', 'o', 'l']); }
        Token::BoolType
    } else if len == 3 && w.get_char(0) == 's' && w.get_char(1) == 't' && w.get_char(2) == 'r' {
        proof { assert(w@ =~= seq!['s', 't', 'r']); }
        Token::StrType
    } else {
        Token::Symbol(w.to_owned())
    }
}

/// Converts a source text into its token sequence, or fails with the first
/// lexical error, exactly as `spec_tokenize` says.
pub fn tokenize(input: &str) -> (r: Result<Vec<Token>, LexErr>)
    ensures
        match r {
            Ok(ts) => spec_tokenize(input@) == Ok::<Seq<SpecToken>, SpecLexErr>(tokens_view(ts@)),
            Err(e) => spec_tokenize(input@) == Err::<Seq<SpecToken>, SpecLexErr>(e@),
        },
{
    let s = Ghost(input@);
    let n = input.unicode_len();
    let mut tokens: Vec<Token> = Vec::new();
    let mut i: usize = 0;
    while i < n
        invariant
            s@ == input@,
            n == s@.len(),
            i <= n,
            spec_tokenize(s@) == match spec_tokenize_from(s@, i as int) {
                Ok(rest) => Ok::<Seq<SpecToken>, SpecLexErr>(tokens_view(tokens@) + rest),
                Err(e) => Err::<Seq<SpecToken>, SpecLexErr>(e),
            },
        decreases n - i,
    {
        let c = input.get_char(i);
        if is_space(c) {
            i = i + 1;
        } else {
            let ghost old_tokens = tokens@;
            let scanned: Result<(Token, usize), LexErr> = scan_one(input, n, i);
            proof {
                lemma_scan_token_bounds(s@, i as int);
            }
            match scanned {
                Err(e) => {
                    return Err(e);
                },
                Ok((t, j)) => {
                    tokens.push(t);
                    i = j;
                    proof {
                        assert(tokens_view(tokens@) =~= tokens_view(old_tokens) + seq![t@]);
                        match spec_tokenize_from(s@, j as int) {
                            Ok(rest) => {
                                assert(tokens_view(old_tokens) + (seq![t@] + rest) =~= (
                                tokens_view(old_tokens) + seq![t@]) + rest);
                            },
                            Err(_) => {},
                        }
                    }
                },
            }
        }
    }
    proof {
        assert(tokens_view(tokens@) + Seq::<SpecToken>::empty() =~= tokens_view(tokens@));
    }
    Ok(tokens)
}

/// Scans the one token that starts at position `i`, which holds no
/// whitespace; returns it with the position just past it.
fn scan_one(input: &str, n: usize, i: usize) -> (r: Result<(Token, usize), LexErr>)
    requires
        n == input@.len(),
        i < n,
        !is_space_char(input@[i as int]),
    ensures
        match r {
            Ok((t, j)) => scan_token(input@, i as int) == Ok::<(SpecToken, int), SpecLexErr>(
                (t@, j as int),
            ) && i < j <= n,
            Err(e) => scan_token(input@, i as int) == Err::<(SpecToken, int), SpecLexErr>(e@),
        },
{
    proof {
        lemma_scan_token_bounds(input@, i as int);
    }
    let c = input.get_char(i);
    if is_digit(c) {
        let j = find_digit_run_end(input, n, i);
        proof {
            assert(digit_run_end(input@, i as int) == digit_run_end(input@, i as int + 1));
        }
        proof {
            lemma_digit_run_end_digits(input@, i as int);
        }
        let acc = digits_value_clamped(input, i, j, 0x7fff_ffff_ffff_ffffi128);
        if acc <= 0x7fff_ffff_ffff_ffffi128 {
            proof {
                lemma_digits_val_nonneg(input@.subrange(i as int, j as int));
                assert(0 <= acc <= i64::MAX as int);
            }
            Ok((Token::Int(acc as i64), j))
        } else {
            Err(LexErr::InvalidInt(input.substring_char(i, j).to_owned()))
        }
    } else if c == '-' {
        if i + 1 < n && input.get_char(i + 1) == '>' {
            Ok((Token::RightArrow, i + 2))
        } else {
            let j = find_digit_run_end(input, n, i + 1);
            if j == i + 1 {
                Err(LexErr::InvalidInt(input.substring_char(i, i + 1).to_owned()))
            } else {
                proof {
                    lemma_digit_run_end_digits(input@, i as int + 1);
                }
                let acc = digits_value_clamped(input, i + 1, j, 0x8000_0000_0000_0000i128);
                if acc <= 0x8000_0000_0000_0000i128 {
                    proof {
                        lemma_digits_val_nonneg(input@.subrange(i as int + 1, j as int));
                        assert(i64::MIN as int <= -acc <= 0);
                    }
                    Ok((Token::Int((-acc) as i64), j))
                } else {
                    Err(LexErr::InvalidInt(input.substring_char(i, j).to_owned()))
                }
            }
        }
    } else if c == '+' {
        if i + 1 < n && input.get_char(i + 1) == '+' {
            Ok((Token::Concat, i + 2))
        } else {
            Ok((Token::Plus, i + 1))
        }
    } else if c == '<' {
        Ok((Token::LessThan, i + 1))
    } else if c == '(' {
        Ok((Token::LeftParen, i + 1))
    } else if c == ')' {
        Ok((Token::RightParen, i + 1))
    } else if c == '{' {
        Ok((Token::LeftBrace, i + 1))
    } else if c == '}' {
        Ok((Token::RightBrace, i + 1))
    } else if c == ':' {
        Ok((Token::Colon, i + 1))
    } else if c == '=' {
        Ok((Token::Equal, i + 1))
    } else if c == '"' {
        let j = find_string_end(input, n, i + 1);
        if j >= n {
            Err(LexErr::UnterminatedString)
        } else {
            Ok((Token::Str(input.substring_char(i + 1, j).to_owned()), j + 1))
        }
    } else if is_ident_start(c) {
        let j = find_ident_run_end(input, n, i);
        proof {
            assert(ident_run_end(input@, i as int) == ident_run_end(input@, i as int + 1));
        }
        Ok((classify_word(input.substring_char(i, j)), j))
    } else {
        Err(LexErr::UnexpectedChar(c))
    }
}

} // verus!
