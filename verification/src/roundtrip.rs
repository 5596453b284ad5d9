//! The round-trip law of the lexer: re-lexing the canonical rendering of a
//! token sequence yields that sequence again.  In particular, lexing any
//! source text and rendering the tokens gives a text that lexes back to the
//! same tokens.

use crate::ast::SpecToken;
use crate::lexer::{
    SpecLexErr, digit_run_end, digits_val, ident_run_end, is_digit_char, is_ident_char,
    is_ident_start_char, is_space_char, lemma_digit_run_end_bounds, lemma_digit_run_end_digits,
    lemma_digit_run_end_exact, lemma_digits_val_nonneg, lemma_ident_run_end_bounds,
    lemma_ident_run_end_chars, lemma_ident_run_end_exact, lemma_scan_token_bounds,
    lemma_string_end_bounds, lemma_string_end_chars, lemma_string_end_exact, scan_token,
    spec_tokenize, spec_tokenize_from, string_end, word_token,
};
use crate::render::{digit_char, spec_render_nat, spec_render_token, spec_render_tokens};
use vstd::prelude::*;

verus! {

/// The identifier runs that the lexer reads as keywords rather than as
/// symbols.
pub open spec fn is_keyword(w: Seq<char>) -> bool {
    w == seq!['i', 'f'] || w == seq!['e', 'l', 's', 'e'] || w == seq!['l', 'e', 't'] || w == seq![
        't',
        'r',
        'u',
        'e',
    ] || w == seq!['f', 'a', 'l', 's', 'e'] || w == seq!['f', 'n'] || w == seq!['i', 'n', 't']
        || w == seq!['b', 'o', 'o', 'l'] || w == seq!['s', 't', 'r']
}

/// A token that the lexer itself could have produced: its integer fits the
/// machine word, its string payload holds no double quote, and its symbol
/// payload is a maximal identifier run that is not a keyword.
pub open spec fn wf_token(t: SpecToken) -> bool {
    match t {
        SpecToken::Int(n) => i64::MIN <= n <= i64::MAX,
        SpecToken::Str(s) => forall|k: int| 0 <= k < s.len() ==> s[k] != '"',
        SpecToken::Symbol(s) => s.len() > 0 && is_ident_start_char(s[0]) && (forall|k: int|
            0 <= k < s.len() ==> is_ident_char(s[k])) && !is_keyword(s),
        _ => true,
    }
}

/// Where a piece `r` lies inside `s` starting at `i`, the characters of `s`
/// there are the characters of `r`.
proof fn lemma_prefix_range(s: Seq<char>, i: int, r: Seq<char>)
    requires
        0 <= i,
        i + r.len() <= s.len(),
        s.subrange(i, i + r.len() as int) == r,
    ensures
        forall|k: int| i <= k < i + r.len() ==> s[k] == r[k - i],
{
    assert forall|k: int| i <= k < i + r.len() implies s[k] == r[k - i] by {
        assert(s.subrange(i, i + r.len() as int)[k - i] == s[k]);
    }
}

/// The first character of a piece lying inside `s` at `i`.
proof fn lemma_prefix_first(s: Seq<char>, i: int, r: Seq<char>)
    requires
        0 <= i,
        i + r.len() <= s.len(),
        s.subrange(i, i + r.len() as int) == r,
        r.len() >= 1,
    ensures
        s[i] == r[0],
{
    assert(s.subrange(i, i + r.len() as int)[0] == s[i]);
}

/// The second character of a piece lying inside `s` at `i`.
proof fn lemma_prefix_second(s: Seq<char>, i: int, r: Seq<char>)
    requires
        0 <= i,
        i + r.len() <= s.len(),
        s.subrange(i, i + r.len() as int) == r,
        r.len() >= 2,
    ensures
        s[i + 1] == r[1],
{
    assert(s.subrange(i, i + r.len() as int)[1] == s[i + 1]);
}

/// The decimal rendering of a nonnegative number is a nonempty digit run
/// that reads back as the number itself.
proof fn lemma_render_nat_digits(n: int)
    requires
        n >= 0,
    ensures
        spec_render_nat(n).len() >= 1,
        forall|k: int| 0 <= k < spec_render_nat(n).len() ==> is_digit_char(spec_render_nat(n)[k]),
        digits_val(spec_render_nat(n)) == n,
    decreases n,
{
    if n < 10 {
        assert(spec_render_nat(n) == seq![digit_char(n)]);
        assert(is_digit_char(digit_char(n)));
        assert(digits_val(seq![digit_char(n)]) == digits_val(
            seq![digit_char(n)].drop_last(),
        ) * 10 + (digit_char(n) as int - 48));
        assert(seq![digit_char(n)].drop_last() =~= Seq::<char>::empty());
    } else {
        lemma_render_nat_digits(n / 10);
        let a = spec_render_nat(n / 10);
        let r = a + seq![digit_char(n % 10)];
        assert(spec_render_nat(n) == r);
        assert(r.drop_last() =~= a);
        assert(r.last() == digit_char(n % 10));
        assert(is_digit_char(digit_char(n % 10)));
        assert(digits_val(r) == digits_val(a) * 10 + (digit_char(n % 10) as int - 48));
        assert(digits_val(r) == (n / 10) * 10 + n % 10);
        assert((n / 10) * 10 + n % 10 == n) by (nonlinear_arith)
            requires n >= 0;
    }
}

/// An identifier run lying at `i` with a space or the end of text right
/// after it is scanned as the word it spells.
proof fn lemma_scan_ident(s: Seq<char>, i: int, w: Seq<char>)
    requires
        0 <= i,
        i + w.len() <= s.len(),
        w.len() >= 1,
        is_ident_start_char(w[0]),
        forall|k: int| 0 <= k < w.len() ==> is_ident_char(w[k]),
        s.subrange(i, i + w.len() as int) == w,
        i + w.len() == s.len() || s[i + w.len() as int] == ' ',
    ensures
        scan_token(s, i) == Ok::<(SpecToken, int), SpecLexErr>(
            (word_token(w), i + w.len() as int),
        ),
{
    let j = i + w.len() as int;
    lemma_prefix_range(s, i, w);
    lemma_prefix_first(s, i, w);
    assert(w[i - i] == w[0]);
    assert(is_ident_start_char(s[i]));
    assert forall|k: int| i <= k < j implies is_ident_char(s[k]) by {
        assert(s[k] == w[k - i]);
        assert(is_ident_char(w[k - i]));
    }
    if j < s.len() {
        assert(s[j] == ' ');
        assert(!is_ident_char(' '));
    }
    lemma_ident_run_end_exact(s, i, j);
    assert(!is_digit_char(s[i]));
    assert(s[i] != '-' && s[i] != '+' && s[i] != '<' && s[i] != '(' && s[i] != ')' && s[i] != '{'
        && s[i] != '}' && s[i] != ':' && s[i] != '=' && s[i] != '"');
    assert(s.subrange(i, j) == w);
}

/// A keyword's rendering is scanned as that keyword.
proof fn lemma_scan_keyword(s: Seq<char>, i: int, w: Seq<char>)
    requires
        0 <= i,
        i + w.len() <= s.len(),
        is_keyword(w),
        s.subrange(i, i + w.len() as int) == w,
        i + w.len() == s.len() || s[i + w.len() as int] == ' ',
    ensures
        scan_token(s, i) == Ok::<(SpecToken, int), SpecLexErr>(
            (word_token(w), i + w.len() as int),
        ),
{
    assert(seq!['i', 'f'][0] == 'i');
    assert(seq!['e', 'l', 's', 'e'][0] == 'e');
    assert(seq!['l', 'e', 't'][0] == 'l');
    assert(seq!['t', 'r', 'u', 'e'][0] == 't');
    assert(seq!['f', 'a', 'l', 's', 'e'][0] == 'f');
    assert(seq!['f', 'n'][0] == 'f');
    assert(seq!['f', 'n'][1] == 'n');
    assert(seq!['i', 'f'][1] == 'f');
    assert(seq!['i', 'n', 't'][0] == 'i');
    assert(seq!['i', 'n', 't'][1] == 'n');
    assert(seq!['l', 'e', 't'][1] == 'e');
    assert(seq!['b', 'o', 'o', 'l'][0] == 'b');
    assert(seq!['s', 't', 'r'][0] == 's');
    assert(w.len() >= 1 && is_ident_start_char(w[0]) && forall|k: int|
        0 <= k < w.len() ==> is_ident_char(w[k]));
    lemma_scan_ident(s, i, w);
}

/// Scanning at a position where a well-formed token's rendering lies, with a
/// space or the end of text right after it, reads exactly that token.
proof fn lemma_scan_rendered(s: Seq<char>, i: int, t: SpecToken)
    requires
        wf_token(t),
        0 <= i,
        i + spec_render_token(t).len() <= s.len(),
        s.subrange(i, i + spec_render_token(t).len() as int) == spec_render_token(t),
        i + spec_render_token(t).len() == s.len() || s[i + spec_render_token(t).len() as int]
            == ' ',
    ensures
        scan_token(s, i) == Ok::<(SpecToken, int), SpecLexErr>(
            (t, i + spec_render_token(t).len() as int),
        ),
{
    let r = spec_render_token(t);
    let j = i + r.len() as int;
    match t {
        SpecToken::Int(n) => {
            if n >= 0 {
                lemma_render_nat_digits(n);
                assert(r == spec_render_nat(n));
                lemma_prefix_range(s, i, r);
                lemma_prefix_first(s, i, r);
                assert(r[i - i] == r[0]);
                assert(is_digit_char(s[i]));
                assert forall|k: int| i <= k < j implies is_digit_char(s[k]) by {
                    assert(s[k] == r[k - i]);
                    assert(is_digit_char(r[k - i]));
                }
                if j < s.len() {
                    assert(!is_digit_char(' '));
                }
                lemma_digit_run_end_exact(s, i, j);
                assert(s.subrange(i, j) == r);
                assert(digits_val(s.subrange(i, j)) == n);
            } else {
                lemma_render_nat_digits(-n);
                let d = spec_render_nat(-n);
                assert(r == seq!['-'] + d);
                assert(r.len() == 1 + d.len());
                lemma_prefix_range(s, i, r);
                lemma_prefix_first(s, i, r);
                lemma_prefix_second(s, i, r);
                assert(r[0] == '-');
                assert(s[i] == '-');
                assert(!is_digit_char('-'));
                assert(r[1] == d[0]);
                assert(is_digit_char(d[0]));
                assert(s[i + 1] != '>');
                assert forall|k: int| i + 1 <= k < j implies is_digit_char(s[k]) by {
                    assert(s[k] == r[k - i]);
                    assert(r[k - i] == d[k - i - 1]);
                    assert(is_digit_char(d[k - i - 1]));
                }
                if j < s.len() {
                    assert(!is_digit_char(' '));
                }
                lemma_digit_run_end_exact(s, i + 1, j);
                assert(j != i + 1);
                assert forall|m: int| 0 <= m < d.len() implies s.subrange(i + 1, j)[m] == d[m] by {
                    assert(s.subrange(i + 1, j)[m] == s[i + 1 + m]);
                    assert(s[i + 1 + m] == r[i + 1 + m - i]);
                    assert(r[1 + m] == d[m]);
                }
                assert(s.subrange(i + 1, j) =~= d);
                assert(digits_val(s.subrange(i + 1, j)) == -n);
                assert(-n <= i64::MAX as int + 1);
            }
        },
        SpecToken::Bool(b) => {
            lemma_scan_keyword(s, i, r);
        },
        SpecToken::Str(c) => {
            assert(r == seq!['"'] + c + seq!['"']);
            assert(r.len() == c.len() + 2);
            lemma_prefix_range(s, i, r);
            lemma_prefix_first(s, i, r);
            assert(r[0] == '"');
            assert(s[i] == '"');
            assert(!is_digit_char('"'));
            assert forall|k: int| i + 1 <= k < j - 1 implies s[k] != '"' by {
                assert(s[k] == r[k - i]);
                assert(r[k - i] == c[k - i - 1]);
                assert(c[k - i - 1] != '"');
            }
            assert(s[j - 1] == r[j - 1 - i]);
            assert(r[c.len() as int + 1] == '"');
            assert(s[j - 1] == '"');
            lemma_string_end_exact(s, i + 1, j - 1);
            assert forall|m: int| 0 <= m < c.len() implies s.subrange(i + 1, j - 1)[m] == c[m] by {
                assert(s.subrange(i + 1, j - 1)[m] == s[i + 1 + m]);
                assert(s[i + 1 + m] == r[i + 1 + m - i]);
                assert(r[1 + m] == c[m]);
            }
            assert(s.subrange(i + 1, j - 1) =~= c);
        },
        SpecToken::Symbol(w) => {
            lemma_scan_ident(s, i, r);
            assert(word_token(r) == t);
        },
        SpecToken::Plus => {
            lemma_prefix_first(s, i, r);
            assert(r[0] == '+');
            assert(s[i] == '+');
            assert(!is_digit_char('+'));
            if i + 1 < s.len() && j < s.len() {
                assert(s[j] == ' ');
            }
        },
        SpecToken::Concat => {
            lemma_prefix_first(s, i, r);
            lemma_prefix_second(s, i, r);
            assert(r[0] == '+' && r[1] == '+');
            assert(s[i] == '+' && s[i + 1] == '+');
            assert(!is_digit_char('+'));
        },
        SpecToken::LessThan => {
            lemma_prefix_first(s, i, r);
            assert(r[0] == '<');
            assert(s[i] == '<');
            assert(!is_digit_char('<'));
        },
        SpecToken::LeftParen => {
            lemma_prefix_first(s, i, r);
            assert(r[0] == '(');
            assert(s[i] == '(');
            assert(!is_digit_char('('));
        },
        SpecToken::RightParen => {
            lemma_prefix_first(s, i, r);
            assert(r[0] == ')');
            assert(s[i] == ')');
            assert(!is_digit_char(')'));
        },
        SpecToken::LeftBrace => {
            lemma_prefix_first(s, i, r);
            assert(r[0] == '{');
            assert(s[i] == '{');
            assert(!is_digit_char('{'));
        },
        SpecToken::RightBrace => {
            lemma_prefix_first(s, i, r);
            assert(r[0] == '}');
            assert(s[i] == '}');
            assert(!is_digit_char('}'));
        },
        SpecToken::Colon => {
            lemma_prefix_first(s, i, r);
            assert(r[0] == ':');
            assert(s[i] == ':');
            assert(!is_digit_char(':'));
        },
        SpecToken::RightArrow => {
            lemma_prefix_first(s, i, r);
            lemma_prefix_second(s, i, r);
            assert(r[0] == '-' && r[1] == '>');
            assert(s[i] == '-' && s[i + 1] == '>');
            assert(!is_digit_char('-'));
        },
        SpecToken::Equal => {
            lemma_prefix_first(s, i, r);
            assert(r[0] == '=');
            assert(s[i] == '=');
            assert(!is_digit_char('='));
        },
        SpecToken::If => {
            lemma_scan_keyword(s, i, r);
        },
        SpecToken::Else => {
            lemma_scan_keyword(s, i, r);
        },
        SpecToken::Let => {
            lemma_scan_keyword(s, i, r);
        },
        SpecToken::Fn => {
            lemma_scan_keyword(s, i, r);
        },
        SpecToken::IntType => {
            lemma_scan_keyword(s, i, r);
        },
        SpecToken::BoolType => {
            lemma_scan_keyword(s, i, r);
        },
        SpecToken::StrType => {
            lemma_scan_keyword(s, i, r);
        },
    }
}

/// A well-formed token's rendering is nonempty and starts with something
/// other than whitespace.
proof fn lemma_render_token_first(t: SpecToken)
    requires
        wf_token(t),
    ensures
        spec_render_token(t).len() >= 1,
        !is_space_char(spec_render_token(t)[0]),
{
    match t {
        SpecToken::Int(n) => {
            if n >= 0 {
                lemma_render_nat_digits(n);
                assert(is_digit_char(spec_render_token(t)[0]));
            } else {
                lemma_render_nat_digits(-n);
                assert(spec_render_token(t)[0] == '-');
            }
        },
        SpecToken::Symbol(w) => {
            assert(spec_render_token(t)[0] == w[0]);
        },
        _ => {},
    }
}

/// Tokenizing from a position where the rendering of a well-formed token
/// sequence fills the rest of the text yields that sequence.
proof fn lemma_tokenize_rendered_from(ts: Seq<SpecToken>, s: Seq<char>, i: int)
    requires
        forall|k: int| 0 <= k < ts.len() ==> wf_token(ts[k]),
        0 <= i <= s.len(),
        s.subrange(i, s.len() as int) == spec_render_tokens(ts),
    ensures
        spec_tokenize_from(s, i) == Ok::<Seq<SpecToken>, SpecLexErr>(ts),
    decreases ts.len(),
{
    let whole = spec_render_tokens(ts);
    assert(s.len() - i == whole.len());
    lemma_prefix_range(s, i, whole);
    if ts.len() == 0 {
        assert(spec_tokenize_from(s, i) == Ok::<Seq<SpecToken>, SpecLexErr>(Seq::empty()));
        assert(ts =~= Seq::<SpecToken>::empty());
    } else {
        let t0 = ts[0];
        assert(wf_token(t0));
        let rest = ts.drop_first();
        let r0 = spec_render_token(t0);
        let j = i + r0.len() as int;
        lemma_render_token_first(t0);
        if ts.len() == 1 {
            assert(whole == r0);
            assert(j == s.len());
            lemma_scan_rendered(s, i, t0);
            assert(!is_space_char(s[i])) by {
                lemma_prefix_first(s, i, whole);
            }
            assert(spec_tokenize_from(s, j) == Ok::<Seq<SpecToken>, SpecLexErr>(Seq::empty()));
            assert(seq![t0] + Seq::<SpecToken>::empty() =~= ts);
        } else {
            let rr = spec_render_tokens(rest);
            assert(whole == r0 + seq![' '] + rr);
            assert(whole.len() == r0.len() + 1 + rr.len());
            assert forall|m: int| 0 <= m < r0.len() implies s.subrange(i, j)[m] == r0[m] by {
                assert(s.subrange(i, j)[m] == s[i + m]);
                assert(s[i + m] == whole[i + m - i]);
                assert(whole[m] == r0[m]);
            }
            assert(s.subrange(i, j) =~= r0);
            assert(s[j] == whole[j - i]);
            assert(whole[r0.len() as int] == ' ');
            assert(s[j] == ' ');
            lemma_scan_rendered(s, i, t0);
            assert(!is_space_char(s[i])) by {
                lemma_prefix_first(s, i, whole);
                assert(whole[0] == r0[0]);
            }
            assert forall|m: int| 0 <= m < rr.len() implies s.subrange(j + 1, s.len() as int)[m]
                == rr[m] by {
                assert(s.subrange(j + 1, s.len() as int)[m] == s[j + 1 + m]);
                assert(s[j + 1 + m] == whole[j + 1 + m - i]);
                assert(whole[r0.len() as int + 1 + m] == rr[m]);
            }
            assert(s.subrange(j + 1, s.len() as int) =~= rr);
            lemma_tokenize_rendered_from(rest, s, j + 1);
            assert(is_space_char(s[j]));
            assert(spec_tokenize_from(s, j) == spec_tokenize_from(s, j + 1));
            assert(seq![t0] + rest =~= ts);
        }
    }
}

/// Round-trip of a token sequence: re-lexing the canonical rendering of any
/// well-formed token sequence yields exactly that sequence.
pub proof fn lemma_tokens_round_trip(ts: Seq<SpecToken>)
    requires
        forall|k: int| 0 <= k < ts.len() ==> wf_token(ts[k]),
    ensures
        spec_tokenize(spec_render_tokens(ts)) == Ok::<Seq<SpecToken>, SpecLexErr>(ts),
{
    let s = spec_render_tokens(ts);
    assert(s.subrange(0, s.len() as int) =~= s);
    lemma_tokenize_rendered_from(ts, s, 0);
}

/// Every token the scanner produces is well formed.
proof fn lemma_scan_wf(s: Seq<char>, i: int)
    requires
        0 <= i < s.len(),
    ensures
        scan_token(s, i) matches Ok((t, j)) ==> wf_token(t),
{
    let c = s[i];
    if is_digit_char(c) {
        let j = digit_run_end(s, i);
        lemma_digit_run_end_bounds(s, i);
        lemma_digit_run_end_digits(s, i);
        lemma_digits_val_nonneg(s.subrange(i, j));
    } else if c == '-' {
        if !(i + 1 < s.len() && s[i + 1] == '>') {
            let j = digit_run_end(s, i + 1);
            lemma_digit_run_end_bounds(s, i + 1);
            lemma_digit_run_end_digits(s, i + 1);
            lemma_digits_val_nonneg(s.subrange(i + 1, j));
        }
    } else if c == '"' {
        let j = string_end(s, i + 1);
        lemma_string_end_bounds(s, i + 1);
        lemma_string_end_chars(s, i + 1);
    } else if is_ident_start_char(c) && c != '+' && c != '<' && c != '(' && c != ')' && c != '{'
        && c != '}' && c != ':' && c != '=' {
        let j = ident_run_end(s, i);
        lemma_ident_run_end_bounds(s, i);
        lemma_ident_run_end_chars(s, i);
        let w = s.subrange(i, j);
        assert(ident_run_end(s, i) == ident_run_end(s, i + 1));
        assert(j >= i + 1) by {
            lemma_ident_run_end_bounds(s, i + 1);
        }
        assert(w[0] == s[i]);
        assert(forall|k: int| 0 <= k < w.len() ==> w[k] == s[i + k]);
        if !is_keyword(w) {
            assert(word_token(w) == SpecToken::Symbol(w));
            assert(wf_token(SpecToken::Symbol(w)));
        }
    }
}

/// Every token sequence the lexer produces is well formed.
proof fn lemma_tokenize_from_wf(s: Seq<char>, i: int)
    requires
        0 <= i,
    ensures
        spec_tokenize_from(s, i) matches Ok(ts) ==> forall|k: int|
            0 <= k < ts.len() ==> wf_token(ts[k]),
    decreases s.len() - i,
{
    if i < s.len() {
        if is_space_char(s[i]) {
            lemma_tokenize_from_wf(s, i + 1);
        } else {
            lemma_scan_token_bounds(s, i);
            lemma_scan_wf(s, i);
            match scan_token(s, i) {
                Ok((t, j)) => {
                    lemma_tokenize_from_wf(s, j);
                    match spec_tokenize_from(s, j) {
                        Ok(rest) => {
                            assert(forall|k: int| 0 <= k < (seq![t] + rest).len() ==> wf_token(
                                (seq![t] + rest)[k],
                            )) by {
                                assert(forall|k: int| 1 <= k < (seq![t] + rest).len() ==> (seq![t]
                                    + rest)[k] == rest[k - 1]);
                            }
                        },
                        Err(_) => {},
                    }
                },
                Err(_) => {},
            }
        }
    }
}

/// The round-trip law for source text: lexing any text and rendering the
/// resulting tokens gives a text that lexes back to the same tokens.
pub proof fn lemma_round_trip(text: Seq<char>, ts: Seq<SpecToken>)
    requires
        spec_tokenize(text) == Ok::<Seq<SpecToken>, SpecLexErr>(ts),
    ensures
        spec_tokenize(spec_render_tokens(ts)) == Ok::<Seq<SpecToken>, SpecLexErr>(ts),
{
    lemma_tokenize_from_wf(text, 0);
    assert(spec_tokenize_from(text, 0) == Ok::<Seq<SpecToken>, SpecLexErr>(ts));
    assert(spec_tokenize_from(text, 0)->Ok_0 == ts);
    assert(forall|k: int| 0 <= k < ts.len() ==> wf_token(ts[k]));
    lemma_tokens_round_trip(ts);
}

} // verus!
