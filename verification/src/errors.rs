//! The error taxonomy: lexical errors, syntactic errors, and the single
//! closed union the two share so that one `Result` channel carries both.

use vstd::prelude::*;

use crate::spans::Span;
use crate::spans::Spanned;
use crate::tokens::TokenType;

verus! {

/// An error found while turning characters into tokens.
#[derive(Clone, Debug, PartialEq, Eq)]
pub enum LexError {
    /// A character that starts no token.
    UnexpectedChar(char),
    /// An identifier whose text could not be read back from the source;
    /// a defensive variant, never produced by the lexer in this crate.
    InvalidIdent,
    /// End of input before the closing quote; carries the quote character.
    UnterminatedStr(char),
    /// A numeric literal with more than one dot, or a dot at end of input.
    InvalidNumber,
    /// A backslash escape other than `\" \\ \' \n \t \0`.
    InvalidEscape,
    /// End of input where at least one more character was required.
    UnexpectedStreamEnd,
    /// A block comment whose `<*` / `*>` pairs never balance before end of
    /// input.
    UnterminatedComment,
}

/// An error found while turning tokens into the syntax tree.
#[derive(Clone, Debug, PartialEq, Eq)]
pub enum ParseError {
    /// Escape hatch for contextual errors; carries a message.
    Unspecified(String),
    /// A required token kind did not match: expected, then got.
    InvalidToken(TokenType, TokenType),
    /// A token where no production allows one.
    UnexpectedToken(TokenType),
    /// A closing tag whose name differs from the opening tag's name; each
    /// name carries the span of its whole tag.
    UnmatchedTag { start_tag: Spanned<String>, end_tag: Spanned<String> },
    /// End of input where a token was required.
    UnexpectedStreamEnd,
}

/// Any error of the front end: the first one found aborts the whole parse.
#[derive(Clone, Debug, PartialEq, Eq)]
pub enum CompileError {
    Lex(Spanned<LexError>),
    Parse(Spanned<ParseError>),
}

/// One labelled span of a report.
#[derive(Clone, Debug)]
pub struct Label {
    pub span: Span,
    pub message: String,
}

/// A structured diagnostic: a primary message, a primary labelled span, any
/// further labelled spans, and an optional help or note line. How it is
/// rendered is the caller's concern; the front end only builds the data.
#[derive(Clone, Debug)]
pub struct Report {
    pub message: String,
    pub primary: Label,
    pub secondary: Vec<Label>,
    pub help: Option<String>,
    pub note: Option<String>,
}

fn label(span: Span, message: &str) -> (r: Label)
    ensures
        r.span == span,
        r.message@ == message@,
{
    Label { span, message: message.to_owned() }
}

fn plain_report(message: &str, span: Span, label_text: &str) -> (r: Report)
    ensures
        r.message@ == message@,
        r.primary.span == span,
        r.primary.message@ == label_text@,
        r.secondary@.len() == 0,
        r.help is None,
        r.note is None,
{
    Report {
        message: message.to_owned(),
        primary: label(span, label_text),
        secondary: Vec::new(),
        help: None,
        note: None,
    }
}

impl Spanned<LexError> {
    /// The report for a lexical error: its primary span is always the span
    /// the error carries.
    pub fn report(&self) -> (r: Report)
        ensures
            r.primary.span == self.span,
            r.secondary@.len() == 0,
            self.item matches LexError::UnexpectedChar(c) ==> r.message@ == "Unexpected char '"@
                + seq![c] + "'"@,
    {
        match &self.item {
            LexError::InvalidIdent => {
                let mut r = plain_report(
                    "Invalid identifier",
                    self.span,
                    "This contains special characters.",
                );
                r.note = Some(
                    String::from_str("Identifiers can only be made up of ascii characters."),
                );
                r
            },
            LexError::InvalidNumber => plain_report(
                "Invalid number",
                self.span,
                "This is not a valid number.",
            ),
            LexError::UnexpectedStreamEnd => plain_report(
                "Unexpected end of character stream",
                self.span,
                "Expected more tokens here.",
            ),
            LexError::UnexpectedChar(c) => {
                let msg = String::from_str("Unexpected char '").concat(
                    crate::chars::char_to_string(*c).as_str(),
                ).concat("'");
                Report {
                    message: msg,
                    primary: label(self.span, "This should not be here."),
                    secondary: Vec::new(),
                    help: None,
                    note: None,
                }
            },
            LexError::UnterminatedStr(c) => {
                let mut r = plain_report("Unterminated string", self.span, "Missing '");
                r.primary.message = String::from_str("Missing '").concat(
                    crate::chars::char_to_string(*c).as_str(),
                ).concat("'.");
                r
            },
            LexError::InvalidEscape => {
                let mut r = plain_report(
                    "Invalid escape sequence",
                    self.span,
                    "This is not a valid escape sequence.",
                );
                r.note = Some(
                    String::from_str(
                        "The only valid escape sequences are:  \\\", \\\\, \\', \\n, \\t, \\0 .",
                    ),
                );
                r
            },
            LexError::UnterminatedComment => plain_report(
                "Unterminated comment",
                self.span,
                "This comment is never closed.",
            ),
        }
    }
}

impl Spanned<ParseError> {
    /// The report for a syntactic error. `UnmatchedTag` is the richest case:
    /// its primary span is the close tag, and it carries labels for the open
    /// tag, the close tag and the whole element, plus a renaming hint; its
    /// message names the close tag first and the open tag it should have
    /// matched second, each in its right place.
    pub fn report(&self) -> (r: Report)
        ensures
            self.item matches ParseError::UnmatchedTag { start_tag, end_tag } ==> {
                &&& r.primary.span == end_tag.span
                &&& r.secondary@.len() == 3
                &&& r.secondary@[0].span == start_tag.span
                &&& r.secondary@[1].span == end_tag.span
                &&& r.secondary@[2].span == self.span
                &&& r.message@ == "The end tag '"@ + end_tag.item@
                    + "' does not match the start tag '"@ + start_tag.item@ + "'"@
                &&& r.help matches Some(h) && h@ == "Rename '"@ + start_tag.item@ + "' to '"@
                    + end_tag.item@ + "'."@
            },
            !(self.item matches ParseError::UnmatchedTag { .. }) ==> r.primary.span == self.span
                && r.secondary@.len() == 0,
    {
        match &self.item {
            ParseError::InvalidToken(expected, got) => {
                let msg = String::from_str("Invalid token '").concat(got.name()).concat("'");
                let lab = String::from_str("Expected this token to be ").concat(
                    expected.name(),
                ).concat(".");
                Report {
                    message: msg,
                    primary: Label { span: self.span, message: lab },
                    secondary: Vec::new(),
                    help: None,
                    note: None,
                }
            },
            ParseError::UnmatchedTag { start_tag, end_tag } => {
                let msg = String::from_str("The end tag '").concat(end_tag.item.as_str()).concat(
                    "' does not match the start tag '",
                ).concat(start_tag.item.as_str()).concat("'");
                let help = String::from_str("Rename '").concat(start_tag.item.as_str()).concat(
                    "' to '",
                ).concat(end_tag.item.as_str()).concat("'.");
                let mut secondary: Vec<Label> = Vec::new();
                secondary.push(label(start_tag.span, "This tag"));
                secondary.push(label(end_tag.span, "And this tag"));
                secondary.push(label(self.span, "These tags should match."));
                Report {
                    message: msg,
                    primary: label(end_tag.span, "And this tag"),
                    secondary,
                    help: Some(help),
                    note: None,
                }
            },
            ParseError::UnexpectedToken(got) => {
                let msg = String::from_str("Unexpected token '").concat(got.name()).concat("'");
                Report {
                    message: msg,
                    primary: label(self.span, "This should not be here."),
                    secondary: Vec::new(),
                    help: None,
                    note: None,
                }
            },
            ParseError::UnexpectedStreamEnd => plain_report(
                "Unexpected end of token stream",
                self.span,
                "Expected more tokens here.",
            ),
            ParseError::Unspecified(err) => {
                let mut r = plain_report("Error", self.span, "On this expression");
                r.message = err.clone();
                r
            },
        }
    }
}

impl CompileError {
    /// The span the error is anchored at.
    pub fn span(&self) -> (s: Span)
        ensures
            self matches CompileError::Lex(e) ==> s == e.span,
            self matches CompileError::Parse(e) ==> s == e.span,
    {
        match self {
            CompileError::Lex(e) => e.span,
            CompileError::Parse(e) => e.span,
        }
    }

    /// The report for any front-end error.
    pub fn report(&self) -> (r: Report)
        ensures
            self matches CompileError::Lex(e) ==> r.primary.span == e.span,
    {
        match self {
            CompileError::Lex(e) => e.report(),
            CompileError::Parse(e) => e.report(),
        }
    }
}

} // verus!
