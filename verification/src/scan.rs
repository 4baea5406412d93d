//! The mathematical model of the tokenizer: given the source characters and a
//! cursor, these functions say exactly which token (or lexical error) begins
//! there and where the cursor stands afterwards. The executable lexer is
//! proved to return precisely these values.

use vstd::prelude::*;

use crate::chars::is_dec_digit;
use crate::chars::unicode_alphanumeric;
use crate::chars::unicode_numeric;
use crate::errors::LexError;
use crate::tokens::spec_map_keyword;
use crate::tokens::TokenTypeV;

verus! {

/// What scanning one token yields: a token kind with its span `[lo, hi)` and
/// the cursor position `next` after it, or a lexical error with its span.
pub enum ScanOut {
    Tok { kind: TokenTypeV, lo: int, hi: int, next: int },
    Fail { err: LexError, lo: int, hi: int },
}

/// A single-character token of kind `k` at position `i`.
pub open spec fn one(k: TokenTypeV, i: int) -> ScanOut {
    ScanOut::Tok { kind: k, lo: i, hi: i + 1, next: i + 1 }
}

/// The numeric-literal loop. Starting at `i` with `dots` dots seen so far, it
/// consumes digits, dots and underscores and returns `(end, dots, eof_dot)`:
/// the position after the literal, the dots seen, and whether a dot stood at
/// the very end of the input.
pub open spec fn scan_number_rec(s: Seq<char>, i: int, dots: int) -> (int, int, bool)
    decreases s.len() - i,
    when 0 <= i <= s.len()
{
    if i >= s.len() {
        (i, dots, false)
    } else if !(unicode_numeric(s[i]) || s[i] == '.' || s[i] == '_') {
        (i, dots, false)
    } else if s[i] == '.' {
        if i + 1 >= s.len() {
            (i, dots, true)
        } else if !is_dec_digit(s[i + 1]) {
            (i, dots, false)
        } else {
            scan_number_rec(s, i + 1, dots + 1)
        }
    } else {
        scan_number_rec(s, i + 1, dots)
    }
}

/// A numeric literal whose first character stands at `tokstart` and was
/// already consumed; scanning resumes at `i0`. Exactly one dot makes it a
/// float; a second dot, or a dot at end of input, is `InvalidNumber`.
pub open spec fn scan_number(s: Seq<char>, tokstart: int, i0: int) -> ScanOut {
    let r = scan_number_rec(s, i0, 0);
    if r.2 || r.1 > 1 {
        ScanOut::Fail { err: LexError::InvalidNumber, lo: tokstart, hi: r.0 }
    } else {
        ScanOut::Tok {
            kind: if r.1 == 1 {
                TokenTypeV::Float
            } else {
                TokenTypeV::Int
            },
            lo: tokstart,
            hi: r.0,
            next: r.0,
        }
    }
}

/// The position right after the last alphanumeric-or-underscore character of
/// the run beginning at `i`.
pub open spec fn scan_ident_end(s: Seq<char>, i: int) -> int
    decreases s.len() - i,
    when 0 <= i <= s.len()
{
    if i >= s.len() {
        i
    } else if unicode_alphanumeric(s[i]) || s[i] == '_' {
        scan_ident_end(s, i + 1)
    } else {
        i
    }
}

/// An identifier beginning at `tokstart` (first character already consumed):
/// a keyword token if its text spells one, a `Word` otherwise.
pub open spec fn scan_ident(s: Seq<char>, tokstart: int) -> ScanOut {
    let end = scan_ident_end(s, tokstart + 1);
    let kind = match spec_map_keyword(s.subrange(tokstart, end)) {
        Some(k) => k,
        None => TokenTypeV::Word,
    };
    ScanOut::Tok { kind, lo: tokstart, hi: end, next: end }
}

/// The decoded character an escape introducer maps to, if the escape is one
/// of `\" \\ \' \n \t \0`.
pub open spec fn unescape(c: char) -> Option<char> {
    if c == 'n' {
        Some('\n')
    } else if c == 't' {
        Some('\t')
    } else if c == '\\' {
        Some('\\')
    } else if c == '0' {
        Some('\0')
    } else if c == '"' {
        Some('"')
    } else if c == '\'' {
        Some('\'')
    } else {
        None
    }
}

/// Outcome of the string-literal loop.
pub enum StrScan {
    /// The decoded content and the position right after the closing quote.
    Done { content: Seq<char>, end: int },
    /// End of input before the closing quote.
    Unterminated,
    /// An invalid escape; `at` is the position right after its character.
    BadEscape { at: int },
}

/// The string-literal loop, reading at `i`; `escaped` says whether the
/// previous character was an unconsumed backslash.
pub open spec fn scan_string_rec(s: Seq<char>, i: int, quote: char, escaped: bool) -> StrScan
    decreases s.len() - i,
    when 0 <= i <= s.len()
{
    if i >= s.len() {
        StrScan::Unterminated
    } else {
        let c = s[i];
        if escaped {
            match unescape(c) {
                Some(e) => match scan_string_rec(s, i + 1, quote, false) {
                    StrScan::Done { content, end } => StrScan::Done {
                        content: seq![e].add(content),
                        end,
                    },
                    other => other,
                },
                None => StrScan::BadEscape { at: i + 1 },
            }
        } else if c == '\\' {
            scan_string_rec(s, i + 1, quote, true)
        } else if c == quote {
            StrScan::Done { content: Seq::empty(), end: i + 1 }
        } else {
            match scan_string_rec(s, i + 1, quote, false) {
                StrScan::Done { content, end } => StrScan::Done {
                    content: seq![c].add(content),
                    end,
                },
                other => other,
            }
        }
    }
}

/// A quoted literal whose opening quote stands at `tokstart`. The token's
/// span covers the quotes; its payload is the decoded content.
pub open spec fn scan_string(s: Seq<char>, tokstart: int, quote: char) -> ScanOut {
    match scan_string_rec(s, tokstart + 1, quote, false) {
        StrScan::Done { content, end } => ScanOut::Tok {
            kind: TokenTypeV::Str(content),
            lo: tokstart,
            hi: end,
            next: end,
        },
        StrScan::Unterminated => ScanOut::Fail {
            err: LexError::UnterminatedStr(quote),
            lo: tokstart,
            hi: tokstart + 1,
        },
        StrScan::BadEscape { at } => ScanOut::Fail {
            err: LexError::InvalidEscape,
            lo: tokstart,
            hi: at,
        },
    }
}

/// Outcome of the block-comment loop.
pub enum ComScan {
    /// `hi` is the end of the comment's content, `next` the position right
    /// after the closing `*>`.
    Done { hi: int, next: int },
    /// The `<*` / `*>` pairs never balanced before end of input.
    Unterminated,
}

/// The block-comment loop, reading at `i` with `nest` comments open; `hi`
/// tracks the position right after the last ordinary content character.
pub open spec fn scan_comment_rec(s: Seq<char>, i: int, nest: int, hi: int) -> ComScan
    decreases s.len() - i,
    when 0 <= i <= s.len() && nest >= 1
{
    if i >= s.len() {
        ComScan::Unterminated
    } else if s[i] == '*' && i + 1 < s.len() && s[i + 1] == '>' {
        if nest == 1 {
            ComScan::Done { hi, next: i + 2 }
        } else {
            scan_comment_rec(s, i + 2, nest - 1, hi)
        }
    } else if s[i] == '<' && i + 1 < s.len() && s[i + 1] == '*' {
        scan_comment_rec(s, i + 2, nest + 1, hi)
    } else {
        scan_comment_rec(s, i + 1, nest, i + 1)
    }
}

/// A nested block comment whose `<*` stands at `tokstart`. The token's span
/// covers only the inner content, excluding the outer delimiters; an
/// unbalanced comment is the `UnterminatedComment` error spanning to the end
/// of the input.
pub open spec fn scan_comment(s: Seq<char>, tokstart: int) -> ScanOut {
    match scan_comment_rec(s, tokstart + 2, 1, tokstart + 2) {
        ComScan::Done { hi, next } => ScanOut::Tok {
            kind: TokenTypeV::Comment,
            lo: tokstart + 2,
            hi,
            next,
        },
        ComScan::Unterminated => ScanOut::Fail {
            err: LexError::UnterminatedComment,
            lo: tokstart,
            hi: s.len() as int,
        },
    }
}

/// The token (or lexical error) beginning at cursor position `i`. At or past
/// the end of the input this is always the degenerate `Eof` token, so a
/// finished stream yields `Eof` forever.
pub open spec fn scan(s: Seq<char>, i: int) -> ScanOut {
    if i >= s.len() {
        ScanOut::Tok {
            kind: TokenTypeV::Eof,
            lo: s.len() as int,
            hi: s.len() as int,
            next: s.len() as int,
        }
    } else {
        let c = s[i];
        if c == '.' {
            one(TokenTypeV::Dot, i)
        } else if c == ',' {
            one(TokenTypeV::Comma, i)
        } else if c == '{' {
            one(TokenTypeV::LBrace, i)
        } else if c == '}' {
            one(TokenTypeV::RBrace, i)
        } else if c == '(' {
            one(TokenTypeV::LParen, i)
        } else if c == ')' {
            one(TokenTypeV::RParen, i)
        } else if c == '[' {
            one(TokenTypeV::LBracket, i)
        } else if c == ']' {
            one(TokenTypeV::RBracket, i)
        } else if c == '%' {
            one(TokenTypeV::Percent, i)
        } else if c == ':' {
            one(TokenTypeV::Colon, i)
        } else if c == '$' {
            one(TokenTypeV::Dollar, i)
        } else if c == '@' {
            one(TokenTypeV::At, i)
        } else if c == '|' {
            one(TokenTypeV::Pipe, i)
        } else if c == '&' {
            one(TokenTypeV::Ampersand, i)
        } else if c == '?' {
            one(TokenTypeV::Question, i)
        } else if c == '!' {
            one(TokenTypeV::Bang, i)
        } else if c == '"' || c == '\'' {
            scan_string(s, i, c)
        } else if c == '\r' {
            if i + 1 < s.len() && s[i + 1] == '\n' {
                ScanOut::Tok { kind: TokenTypeV::NewLine, lo: i, hi: i + 1, next: i + 2 }
            } else {
                one(TokenTypeV::Space, i)
            }
        } else if c == '\n' {
            one(TokenTypeV::NewLine, i)
        } else if c == ' ' || c == '\t' {
            one(TokenTypeV::Space, i)
        } else if c == '*' {
            one(TokenTypeV::Star, i)
        } else if c == '-' {
            if i + 1 < s.len() && unicode_alphanumeric(s[i + 1]) {
                scan_number(s, i, i + 1)
            } else {
                one(TokenTypeV::Minus, i)
            }
        } else if c == '>' {
            one(TokenTypeV::Greater, i)
        } else if c == '/' {
            if i + 1 < s.len() && s[i + 1] == '>' {
                ScanOut::Tok { kind: TokenTypeV::RCloser, lo: i, hi: i + 2, next: i + 2 }
            } else {
                one(TokenTypeV::Slash, i)
            }
        } else if c == '=' {
            one(TokenTypeV::Equal, i)
        } else if c == '<' {
            if i + 1 >= s.len() {
                one(TokenTypeV::Lesser, i)
            } else if s[i + 1] == '*' {
                scan_comment(s, i)
            } else if s[i + 1] == '/' {
                if i + 2 < s.len() && s[i + 2] == '>' {
                    ScanOut::Tok { kind: TokenTypeV::End, lo: i, hi: i + 3, next: i + 3 }
                } else {
                    ScanOut::Tok { kind: TokenTypeV::LCloser, lo: i, hi: i + 2, next: i + 2 }
                }
            } else {
                one(TokenTypeV::Lesser, i)
            }
        } else if is_dec_digit(c) {
            scan_number(s, i, i + 1)
        } else if unicode_alphanumeric(c) || c == '_' {
            scan_ident(s, i)
        } else {
            ScanOut::Fail { err: LexError::UnexpectedChar(c), lo: i, hi: i + 1 }
        }
    }
}

/// The cursor position after the outcome `out`, with `i` the position it was
/// produced at (an error leaves the cursor in place).
pub open spec fn out_next(out: ScanOut, i: int) -> int {
    match out {
        ScanOut::Tok { next, .. } => next,
        ScanOut::Fail { .. } => i,
    }
}

pub proof fn lemma_scan_number_rec(s: Seq<char>, i: int, dots: int)
    requires
        0 <= i <= s.len(),
    ensures
        i <= scan_number_rec(s, i, dots).0 <= s.len(),
        scan_number_rec(s, i, dots).1 >= dots,
    decreases s.len() - i,
{
    if i >= s.len() {
    } else if !(unicode_numeric(s[i]) || s[i] == '.' || s[i] == '_') {
    } else if s[i] == '.' {
        if i + 1 >= s.len() {
        } else if !is_dec_digit(s[i + 1]) {
        } else {
            lemma_scan_number_rec(s, i + 1, dots + 1);
        }
    } else {
        lemma_scan_number_rec(s, i + 1, dots);
    }
}

pub proof fn lemma_scan_ident_end(s: Seq<char>, i: int)
    requires
        0 <= i <= s.len(),
    ensures
        i <= scan_ident_end(s, i) <= s.len(),
    decreases s.len() - i,
{
    if i >= s.len() {
    } else if unicode_alphanumeric(s[i]) || s[i] == '_' {
        lemma_scan_ident_end(s, i + 1);
    }
}

pub proof fn lemma_scan_string_rec(s: Seq<char>, i: int, quote: char, escaped: bool)
    requires
        0 <= i <= s.len(),
    ensures
        match scan_string_rec(s, i, quote, escaped) {
            StrScan::Done { content, end } => i < end <= s.len(),
            StrScan::BadEscape { at } => i < at <= s.len(),
            StrScan::Unterminated => true,
        },
    decreases s.len() - i,
{
    if i >= s.len() {
    } else {
        let c = s[i];
        if escaped {
            if unescape(c) is Some {
                lemma_scan_string_rec(s, i + 1, quote, false);
            }
        } else if c == '\\' {
            lemma_scan_string_rec(s, i + 1, quote, true);
        } else if c == quote {
        } else {
            lemma_scan_string_rec(s, i + 1, quote, false);
        }
    }
}

pub proof fn lemma_scan_comment_rec(s: Seq<char>, i: int, nest: int, hi: int)
    requires
        0 <= i <= s.len(),
        nest >= 1,
        0 <= hi <= i,
    ensures
        match scan_comment_rec(s, i, nest, hi) {
            ComScan::Done { hi: h, next } => hi <= h <= next && i < next <= s.len(),
            ComScan::Unterminated => true,
        },
    decreases s.len() - i,
{
    if i >= s.len() {
    } else if s[i] == '*' && i + 1 < s.len() && s[i + 1] == '>' {
        if nest != 1 {
            lemma_scan_comment_rec(s, i + 2, nest - 1, hi);
        }
    } else if s[i] == '<' && i + 1 < s.len() && s[i + 1] == '*' {
        lemma_scan_comment_rec(s, i + 2, nest + 1, hi);
    } else {
        lemma_scan_comment_rec(s, i + 1, nest, i + 1);
    }
}

/// Every scan outcome is well-placed: spans lie within the input and are
/// ordered, the cursor never moves backwards, a token other than `Eof`
/// strictly advances the cursor, and `Eof` appears exactly at end of input.
pub proof fn lemma_scan(s: Seq<char>, i: int)
    requires
        0 <= i <= s.len(),
    ensures
        match scan(s, i) {
            ScanOut::Tok { kind, lo, hi, next } => {
                &&& i <= lo <= hi <= s.len()
                &&& hi <= next <= s.len()
                &&& (kind == TokenTypeV::Eof <==> i == s.len())
                &&& (i < s.len() ==> i < next)
                &&& (i == s.len() ==> next == i && lo == i && hi == i)
                &&& (kind != TokenTypeV::Eof && kind != TokenTypeV::Comment ==> lo == i)
                &&& (kind != TokenTypeV::Eof && kind != TokenTypeV::Comment ==> lo < hi)
            },
            ScanOut::Fail { err, lo, hi } => i <= lo <= s.len() && lo <= hi <= s.len(),
        },
{
    if i < s.len() {
        let c = s[i];
        if c == '"' || c == '\'' {
            lemma_scan_string_rec(s, i + 1, c, false);
        } else if c == '-' {
            if i + 1 < s.len() && unicode_alphanumeric(s[i + 1]) {
                lemma_scan_number_rec(s, i + 1, 0);
            }
        } else if c == '<' {
            if i + 1 < s.len() && s[i + 1] == '*' {
                lemma_scan_comment_rec(s, i + 2, 1, i + 2);
            }
        } else if is_dec_digit(c) {
            lemma_scan_number_rec(s, i + 1, 0);
        } else if unicode_alphanumeric(c) || c == '_' {
            lemma_scan_ident_end(s, i + 1);
        }
    }
}

/// A `<` in the source always begins one of the markup tokens (or fails):
/// a bare `Lesser`, a comment, a left closer or a fragment close.
pub proof fn lemma_scan_lesser(s: Seq<char>, i: int)
    requires
        0 <= i < s.len(),
        s[i] == '<',
    ensures
        match scan(s, i) {
            ScanOut::Tok { kind, .. } => kind == TokenTypeV::Lesser || kind == TokenTypeV::Comment
                || kind == TokenTypeV::LCloser || kind == TokenTypeV::End,
            ScanOut::Fail { .. } => true,
        },
{
}

/// A right closer token only arises from a literal `/>` in the source, and
/// spans exactly those two characters.
pub proof fn lemma_scan_rcloser(s: Seq<char>, i: int)
    requires
        0 <= i <= s.len(),
        scan(s, i) matches ScanOut::Tok { kind: TokenTypeV::RCloser, .. },
    ensures
        scan(s, i) == (ScanOut::Tok { kind: TokenTypeV::RCloser, lo: i, hi: i + 2, next: i + 2 }),
        i + 2 <= s.len(),
        s[i] == '/',
        s[i + 1] == '>',
{
    if i < s.len() {
        let c = s[i];
        if c == '"' || c == '\'' {
            lemma_scan_string_rec(s, i + 1, c, false);
        } else if c == '-' {
            if i + 1 < s.len() && unicode_alphanumeric(s[i + 1]) {
                lemma_scan_number_rec(s, i + 1, 0);
            }
        } else if c == '<' {
            if i + 1 < s.len() && s[i + 1] == '*' {
                lemma_scan_comment_rec(s, i + 2, 1, i + 2);
            }
        } else if is_dec_digit(c) {
            lemma_scan_number_rec(s, i + 1, 0);
        } else if unicode_alphanumeric(c) || c == '_' {
            lemma_scan_ident_end(s, i + 1);
        }
    }
}

/// A left closer or fragment close token only arises from a literal `</`
/// in the source, beginning exactly where the token was scanned.
pub proof fn lemma_scan_closer(s: Seq<char>, i: int)
    requires
        0 <= i <= s.len(),
        scan(s, i) matches ScanOut::Tok { kind, .. } && (kind == TokenTypeV::LCloser || kind
            == TokenTypeV::End),
    ensures
        scan(s, i) matches ScanOut::Tok { lo, .. } && lo == i,
        i + 2 <= s.len(),
        s[i] == '<',
        s[i + 1] == '/',
{
    if i < s.len() {
        let c = s[i];
        if c == '"' || c == '\'' {
            lemma_scan_string_rec(s, i + 1, c, false);
        } else if c == '-' {
            if i + 1 < s.len() && unicode_alphanumeric(s[i + 1]) {
                lemma_scan_number_rec(s, i + 1, 0);
            }
        } else if c == '<' {
            if i + 1 < s.len() && s[i + 1] == '*' {
                lemma_scan_comment_rec(s, i + 2, 1, i + 2);
            }
        } else if is_dec_digit(c) {
            lemma_scan_number_rec(s, i + 1, 0);
        } else if unicode_alphanumeric(c) || c == '_' {
            lemma_scan_ident_end(s, i + 1);
        }
    }
}

/// A token that is not whitespace, a comment or `Eof` never begins with a
/// whitespace character: the dispatch reads space, tab and the newlines
/// before every other class.
pub proof fn lemma_scan_nonws(s: Seq<char>, i: int)
    requires
        0 <= i <= s.len(),
    ensures
        match scan(s, i) {
            ScanOut::Tok { kind, lo, .. } => (kind != TokenTypeV::Eof && kind
                != TokenTypeV::Comment && kind != TokenTypeV::Space && kind != TokenTypeV::NewLine)
                ==> !crate::text::is_edge_ws(s[lo]),
            ScanOut::Fail { .. } => true,
        },
{
    lemma_scan(s, i);
    if i < s.len() {
        let c = s[i];
        if c == '"' || c == '\'' {
            lemma_scan_string_rec(s, i + 1, c, false);
        } else if c == '-' {
            if i + 1 < s.len() && unicode_alphanumeric(s[i + 1]) {
                lemma_scan_number_rec(s, i + 1, 0);
            }
        } else if c == '<' {
            if i + 1 < s.len() && s[i + 1] == '*' {
                lemma_scan_comment_rec(s, i + 2, 1, i + 2);
            }
        } else if is_dec_digit(c) {
            lemma_scan_number_rec(s, i + 1, 0);
        } else if unicode_alphanumeric(c) || c == '_' {
            lemma_scan_ident_end(s, i + 1);
        }
    }
}

/// A whitespace token is always a single whitespace character: `Space` and
/// `NewLine` arise only from space, tab, carriage return and newline.
pub proof fn lemma_scan_ws(s: Seq<char>, i: int)
    requires
        0 <= i <= s.len(),
    ensures
        match scan(s, i) {
            ScanOut::Tok { kind, lo, hi, .. } => (kind == TokenTypeV::Space || kind
                == TokenTypeV::NewLine) ==> (lo == i && hi == i + 1
                && crate::text::is_edge_ws(s[i])),
            ScanOut::Fail { .. } => true,
        },
{
    lemma_scan(s, i);
    if i < s.len() {
        let c = s[i];
        if c == '"' || c == '\'' {
            lemma_scan_string_rec(s, i + 1, c, false);
        } else if c == '-' {
            if i + 1 < s.len() && unicode_alphanumeric(s[i + 1]) {
                lemma_scan_number_rec(s, i + 1, 0);
            }
        } else if c == '<' {
            if i + 1 < s.len() && s[i + 1] == '*' {
                lemma_scan_comment_rec(s, i + 2, 1, i + 2);
            }
        } else if is_dec_digit(c) {
            lemma_scan_number_rec(s, i + 1, 0);
        } else if unicode_alphanumeric(c) || c == '_' {
            lemma_scan_ident_end(s, i + 1);
        }
    }
}

/// For every token but a comment and a carriage-return newline, the span
/// ends exactly where the cursor lands: nothing after the span is consumed.
pub proof fn lemma_scan_token_end(s: Seq<char>, i: int)
    requires
        0 <= i <= s.len(),
    ensures
        match scan(s, i) {
            ScanOut::Tok { kind, lo, hi, next } => (kind != TokenTypeV::Comment && kind
                != TokenTypeV::NewLine) ==> hi == next,
            ScanOut::Fail { .. } => true,
        },
{
    if i < s.len() {
        let c = s[i];
        if c == '"' || c == '\'' {
            lemma_scan_string_rec(s, i + 1, c, false);
        } else if c == '-' {
            if i + 1 < s.len() && unicode_alphanumeric(s[i + 1]) {
                lemma_scan_number_rec(s, i + 1, 0);
            }
        } else if c == '<' {
            if i + 1 < s.len() && s[i + 1] == '*' {
                lemma_scan_comment_rec(s, i + 2, 1, i + 2);
            }
        } else if is_dec_digit(c) {
            lemma_scan_number_rec(s, i + 1, 0);
        } else if unicode_alphanumeric(c) || c == '_' {
            lemma_scan_ident_end(s, i + 1);
        }
    }
}

/// One token of the stream, as the mathematical lexing function sees it.
pub struct TokInfo {
    pub kind: TokenTypeV,
    pub lo: int,
    pub hi: int,
}

/// A lexical failure, as the mathematical lexing function sees it.
pub struct LexFail {
    pub err: LexError,
    pub lo: int,
    pub hi: int,
}

/// The whole token stream from cursor position `i` to end of input,
/// excluding the final `Eof`; or the first lexical error found.
pub open spec fn spec_lex(s: Seq<char>, i: int) -> Result<Seq<TokInfo>, LexFail>
    decreases s.len() - i,
    when 0 <= i <= s.len()
    via spec_lex_dec
{
    match scan(s, i) {
        ScanOut::Tok { kind, lo, hi, next } => {
            if kind == TokenTypeV::Eof {
                Ok(Seq::empty())
            } else {
                match spec_lex(s, next) {
                    Ok(rest) => Ok(seq![TokInfo { kind, lo, hi }].add(rest)),
                    Err(e) => Err(e),
                }
            }
        },
        ScanOut::Fail { err, lo, hi } => Err(LexFail { err, lo, hi }),
    }
}

#[via_fn]
proof fn spec_lex_dec(s: Seq<char>, i: int) {
    lemma_scan(s, i);
}

} // verus!
