//! Human-readable messages for the four error kinds, one per failure, with
//! the offending token, type or value rendered into the text.

use crate::eval::{EvalErr, SpecEvalErr};
use crate::lexer::{LexErr, SpecLexErr};
use crate::parser::{ParseErr, SpecParseErr};
use crate::render::{spec_render_token, spec_render_type, spec_render_value};
use crate::typecheck::{SpecTypeErr, TypeErr};
use vstd::prelude::*;
use vstd::string::StringExecFns;

verus! {

/// Relies on `String::push` (std): appends exactly one character.
#[verifier::external_body]
fn push_char(s: &mut String, c: char)
    ensures
        final(s)@ == old(s)@ + seq![c],
{
    s.push(c);
}

/// The message of a lexical error.
pub open spec fn spec_lex_message(e: SpecLexErr) -> Seq<char> {
    match e {
        SpecLexErr::InvalidInt(s) => "Invalid integer format: "@ + s,
        SpecLexErr::UnterminatedString => "unterminated string"@,
        SpecLexErr::UnexpectedChar(c) => "Unexpected character: '"@ + seq![c] + "'"@,
    }
}

impl LexErr {
    /// The human-readable message of this error.
    pub fn message(&self) -> (s: String)
        ensures
            s@ == spec_lex_message(self@),
    {
        match self {
            LexErr::InvalidInt(p) => {
                let mut s = "Invalid integer format: ".to_owned();
                s.append(p.as_str());
                s
            },
            LexErr::UnterminatedString => "unterminated string".to_owned(),
            LexErr::UnexpectedChar(c) => {
                let mut s = "Unexpected character: '".to_owned();
                push_char(&mut s, *c);
                s.append("'");
                s
            },
        }
    }
}

/// The message of a parse error.
pub open spec fn spec_parse_message(e: SpecParseErr) -> Seq<char> {
    match e {
        SpecParseErr::ExpectedToken(t) => "Expected '"@ + spec_render_token(t) + "' token"@,
        SpecParseErr::ExpectedIdentifier => "Expected an identifier"@,
        SpecParseErr::ExpectedFactor => "Expected a factor"@,
        SpecParseErr::ExpectedType => "Expected a type"@,
        SpecParseErr::TrailingInput => "Expected to find end of input"@,
    }
}

impl ParseErr {
    /// The human-readable message of this error.
    pub fn message(&self) -> (s: String)
        ensures
            s@ == spec_parse_message(self@),
    {
        match self {
            ParseErr::ExpectedToken(t) => {
                let mut s = "Expected '".to_owned();
                let r = t.render();
                s.append(r.as_str());
                s.append("' token");
                s
            },
            ParseErr::ExpectedIdentifier => "Expected an identifier".to_owned(),
            ParseErr::ExpectedFactor => "Expected a factor".to_owned(),
            ParseErr::ExpectedType => "Expected a type".to_owned(),
            ParseErr::TrailingInput => "Expected to find end of input".to_owned(),
        }
    }
}

/// The message of a type error.
pub open spec fn spec_type_message(e: SpecTypeErr) -> Seq<char> {
    match e {
        SpecTypeErr::UnboundVar(v) => "no known type for "@ + v,
        SpecTypeErr::AddOperands => "not both integers"@,
        SpecTypeErr::ConcatOperands => "not both strings"@,
        SpecTypeErr::LessThanOperands => "not both numbers"@,
        SpecTypeErr::TestNotBool => "condition must be a bool"@,
        SpecTypeErr::BranchMismatch => "then and else branches have different types"@,
        SpecTypeErr::ArgMismatch { expected, actual } => "function argument type mismatch: expected "@
            + spec_render_type(expected) + ", got "@ + spec_render_type(actual),
        SpecTypeErr::NotAFunction { found } => "function expected, found "@ + spec_render_type(
            found,
        ),
    }
}

impl TypeErr {
    /// The human-readable message of this error.
    pub fn message(&self) -> (s: String)
        ensures
            s@ == spec_type_message(self@),
    {
        match self {
            TypeErr::UnboundVar(v) => {
                let mut s = "no known type for ".to_owned();
                s.append(v.as_str());
                s
            },
            TypeErr::AddOperands => "not both integers".to_owned(),
            TypeErr::ConcatOperands => "not both strings".to_owned(),
            TypeErr::LessThanOperands => "not both numbers".to_owned(),
            TypeErr::TestNotBool => "condition must be a bool".to_owned(),
            TypeErr::BranchMismatch => "then and else branches have different types".to_owned(),
            TypeErr::ArgMismatch { expected, actual } => {
                let mut s = "function argument type mismatch: expected ".to_owned();
                let re = expected.render();
                s.append(re.as_str());
                s.append(", got ");
                let ra = actual.render();
                s.append(ra.as_str());
                s
            },
            TypeErr::NotAFunction { found } => {
                let mut s = "function expected, found ".to_owned();
                let r = found.render();
                s.append(r.as_str());
                s
            },
        }
    }
}

/// The message of a runtime error.
pub open spec fn spec_eval_message(e: SpecEvalErr) -> Seq<char> {
    match e {
        SpecEvalErr::UnboundVar(v) => v + " not bound"@,
        SpecEvalErr::AddOperands { left, right } => "+ expects two integers, got "@
            + spec_render_value(left) + " + "@ + spec_render_value(right),
        SpecEvalErr::ConcatOperands { left, right } => "++ expects two strings, got "@
            + spec_render_value(left) + " ++ "@ + spec_render_value(right),
        SpecEvalErr::LessThanOperands { left, right } => "< expects two integers, got "@
            + spec_render_value(left) + " < "@ + spec_render_value(right),
        SpecEvalErr::TestNotBool { found } => "boolean expected, found "@ + spec_render_value(
            found,
        ),
        SpecEvalErr::NotAFunction { found } => "function expected, found "@ + spec_render_value(
            found,
        ),
        SpecEvalErr::AddOverflow => "integer addition out of range"@,
        SpecEvalErr::DepthExceeded => "application nesting too deep"@,
    }
}

impl EvalErr {
    /// The human-readable message of this error.
    pub fn message(&self) -> (s: String)
        ensures
            s@ == spec_eval_message(self@),
    {
        match self {
            EvalErr::UnboundVar(v) => {
                let mut s = v.clone();
                s.append(" not bound");
                s
            },
            EvalErr::AddOperands { left, right } => {
                let mut s = "+ expects two integers, got ".to_owned();
                let rl = left.render();
                s.append(rl.as_str());
                s.append(" + ");
                let rr = right.render();
                s.append(rr.as_str());
                s
            },
            EvalErr::ConcatOperands { left, right } => {
                let mut s = "++ expects two strings, got ".to_owned();
                let rl = left.render();
                s.append(rl.as_str());
                s.append(" ++ ");
                let rr = right.render();
                s.append(rr.as_str());
                s
            },
            EvalErr::LessThanOperands { left, right } => {
                let mut s = "< expects two integers, got ".to_owned();
                let rl = left.render();
                s.append(rl.as_str());
                s.append(" < ");
                let rr = right.render();
                s.append(rr.as_str());
                s
            },
            EvalErr::TestNotBool { found } => {
                let mut s = "boolean expected, found ".to_owned();
                let r = found.render();
                s.append(r.as_str());
                s
            },
            EvalErr::NotAFunction { found } => {
                let mut s = "function expected, found ".to_owned();
                let r = found.render();
                s.append(r.as_str());
                s
            },
            EvalErr::AddOverflow => "integer addition out of range".to_owned(),
            EvalErr::DepthExceeded => "application nesting too deep".to_owned(),
        }
    }
}

} // verus!
