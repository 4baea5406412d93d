//! The pull tokenizer. A `Lexer` owns the source characters and a cursor;
//! `peek`, `peek_next` and `next` each return exactly the token that the
//! mathematical `scan` function names at the current cursor, and only `next`
//! moves the cursor.

use vstd::prelude::*;

use crate::chars::char_is_alphanumeric;
use crate::chars::char_is_numeric;
use crate::chars::dec_digit;
use crate::chars::slice_chars;
use crate::chars::str_to_chars;
use crate::errors::LexError;
use crate::scan::out_next;
use crate::scan::scan;
use crate::scan::scan_comment;
use crate::scan::scan_comment_rec;
use crate::scan::scan_ident;
use crate::scan::scan_ident_end;
use crate::scan::scan_number;
use crate::scan::scan_number_rec;
use crate::scan::scan_string;
use crate::scan::scan_string_rec;
use crate::scan::spec_lex;
use crate::scan::unescape;
use crate::scan::LexFail;
use crate::scan::ScanOut;
use crate::scan::StrScan;
use crate::scan::TokInfo;
use crate::spans::FileID;
use crate::spans::Span;
use crate::spans::Spanned;
use crate::tokens::keyword_of_chars;
use crate::tokens::Token;
use crate::tokens::TokenType;
use crate::tokens::TokenTypeV;

verus! {

/// How an executable lexing step realises a scan outcome: a token whose kind
/// and span are the outcome's, or the spanned lexical error it names.
pub open spec fn out_obeys(out: ScanOut, fid: FileID, r: Result<Token, Spanned<LexError>>) -> bool {
    match out {
        ScanOut::Tok { kind, lo, hi, next } => r matches Ok(t) && t.kind@ == kind
            && t.span.file_id == fid && t.span.start == lo && t.span.end == hi,
        ScanOut::Fail { err, lo, hi } => r matches Err(e) && e.item == err && e.span.file_id == fid
            && e.span.start == lo && e.span.end == hi,
    }
}

/// The mathematical image of a token: its kind and span bounds.
pub open spec fn tok_info(t: Token) -> TokInfo {
    TokInfo { kind: t.kind@, lo: t.span.start as int, hi: t.span.end as int }
}

/// The decoded character of a backslash escape, if valid.
fn unescape_char(c: char) -> (r: Option<char>)
    ensures
        r == unescape(c),
{
    match c {
        'n' => Some('\n'),
        't' => Some('\t'),
        '\\' => Some('\\'),
        '0' => Some('\0'),
        '"' => Some('"'),
        '\'' => Some('\''),
        _ => None,
    }
}

/// A pull tokenizer over one source buffer.
pub struct Lexer {
    file_id: FileID,
    src: Vec<char>,
    index: usize,
}

impl Lexer {
    /// The characters of the source buffer.
    pub closed spec fn src_chars(&self) -> Seq<char> {
        self.src@
    }

    /// The cursor: how many characters have been consumed.
    pub closed spec fn pos(&self) -> int {
        self.index as int
    }

    /// The file the buffer came from.
    pub closed spec fn file(&self) -> FileID {
        self.file_id
    }

    /// The cursor never stands past the end of the buffer.
    pub open spec fn wf(&self) -> bool {
        0 <= self.pos() <= self.src_chars().len()
    }

    pub fn new(src: &str, file_id: FileID) -> (l: Lexer)
        ensures
            l.src_chars() == src@,
            l.pos() == 0,
            l.file() == file_id,
            l.wf(),
    {
        Lexer { file_id, src: str_to_chars(src), index: 0 }
    }

    /// The current cursor position, in characters consumed.
    pub fn cursor(&self) -> (i: usize)
        ensures
            i as int == self.pos(),
    {
        self.index
    }

    /// The character under the cursor, if any, without consuming it.
    pub fn peek_char(&self) -> (r: Option<char>)
        requires
            self.wf(),
        ensures
            self.pos() < self.src_chars().len() ==> r == Some(self.src_chars()[self.pos()]),
            self.pos() == self.src_chars().len() ==> r is None,
    {
        if self.index < self.src.len() {
            Some(self.src[self.index])
        } else {
            None
        }
    }

    /// Consumes one character. At the end of the buffer it returns `None`
    /// and leaves the cursor in place.
    pub fn advance(&mut self) -> (r: Option<char>)
        requires
            old(self).wf(),
        ensures
            final(self).src_chars() == old(self).src_chars(),
            final(self).file() == old(self).file(),
            final(self).wf(),
            old(self).pos() < old(self).src_chars().len() ==> r == Some(
                old(self).src_chars()[old(self).pos()],
            ) && final(self).pos() == old(self).pos() + 1,
            old(self).pos() == old(self).src_chars().len() ==> r is None && final(self).pos()
                == old(self).pos(),
    {
        if self.index < self.src.len() {
            let c = self.src[self.index];
            self.index = self.index + 1;
            Some(c)
        } else {
            None
        }
    }

    /// A copy of the characters in `[start, end)` of the source buffer.
    pub fn text_of(&self, start: usize, end: usize) -> (r: Vec<char>)
        requires
            start <= end <= self.src_chars().len(),
        ensures
            r@ == self.src_chars().subrange(start as int, end as int),
    {
        slice_chars(&self.src, start, end)
    }

    fn new_span(&self, start: usize, end: usize) -> (s: Span)
        ensures
            s == (Span { file_id: self.file(), start, end }),
    {
        Span { file_id: self.file_id, start, end }
    }

    /// The degenerate token marking stream exhaustion: `Eof` spanning
    /// `[len, len)`.
    fn make_eof_token(&self) -> (t: Token)
        ensures
            t.kind@ == TokenTypeV::Eof,
            t.span == (Span {
                file_id: self.file(),
                start: self.src_chars().len() as usize,
                end: self.src_chars().len() as usize,
            }),
    {
        let len = self.src.len();
        Token { kind: TokenType::Eof, span: Span { file_id: self.file_id, start: len, end: len } }
    }

    /// The numeric-literal loop; `tokstart` is where the literal began and
    /// `i0` the position after its first character.
    fn lex_number(&self, tokstart: usize, i0: usize) -> (r: (
        Result<Token, Spanned<LexError>>,
        usize,
    ))
        requires
            self.wf(),
            tokstart < i0 <= self.src_chars().len(),
        ensures
            out_obeys(scan_number(self.src_chars(), tokstart as int, i0 as int), self.file(), r.0),
            r.1 as int == out_next(
                scan_number(self.src_chars(), tokstart as int, i0 as int),
                tokstart as int,
            ),
            tokstart <= r.1 <= self.src_chars().len(),
    {
        let len: usize = self.src.len();
        let mut i: usize = i0;
        let mut dots: usize = 0;
        loop
            invariant
                self.wf(),
                tokstart < i0 <= i <= len,
                len == self.src_chars().len(),
                dots <= i,
                scan_number_rec(self.src_chars(), i0 as int, 0) == scan_number_rec(
                    self.src_chars(),
                    i as int,
                    dots as int,
                ),
            ensures
                scan_number_rec(self.src_chars(), i0 as int, 0) == (i as int, dots as int, false),
                i0 <= i <= len,
            decreases len - i,
        {
            if i >= len {
                break;
            }
            let c = self.src[i];
            let numeric = char_is_numeric(c);
            if !(numeric || c == '.' || c == '_') {
                break;
            }
            if c == '.' {
                if i + 1 >= len {
                    proof {
                        assert(scan_number_rec(self.src_chars(), i as int, dots as int) == (
                            i as int,
                            dots as int,
                            true,
                        ));
                    }
                    return (
                        (
                            Err(
                                Spanned {
                                    item: LexError::InvalidNumber,
                                    span: self.new_span(tokstart, i),
                                },
                            ),
                            tokstart,
                        )
                    );
                }
                if !dec_digit(self.src[i + 1]) {
                    break;
                }
                dots = dots + 1;
            }
            i = i + 1;
        }
        if dots > 1 {
            return (
                (
                    Err(Spanned { item: LexError::InvalidNumber, span: self.new_span(tokstart, i) }),
                    tokstart,
                )
            );
        }
        let kind = if dots == 1 {
            TokenType::Float
        } else {
            TokenType::Int
        };
        (Ok(Token { kind, span: self.new_span(tokstart, i) }), i)
    }

    /// The identifier loop; `tokstart` is where the word began (its first
    /// character already consumed).
    fn lex_identifier(&self, tokstart: usize) -> (r: (Result<Token, Spanned<LexError>>, usize))
        requires
            self.wf(),
            tokstart < self.src_chars().len(),
        ensures
            out_obeys(scan_ident(self.src_chars(), tokstart as int), self.file(), r.0),
            r.1 as int == out_next(scan_ident(self.src_chars(), tokstart as int), tokstart as int),
            tokstart <= r.1 <= self.src_chars().len(),
    {
        let len: usize = self.src.len();
        let mut i: usize = tokstart + 1;
        loop
            invariant
                self.wf(),
                tokstart + 1 <= i <= len,
                len == self.src_chars().len(),
                scan_ident_end(self.src_chars(), tokstart + 1) == scan_ident_end(
                    self.src_chars(),
                    i as int,
                ),
            ensures
                tokstart + 1 <= i <= len,
                scan_ident_end(self.src_chars(), tokstart + 1) == i as int,
            decreases len - i,
        {
            if i >= len {
                break;
            }
            let c = self.src[i];
            if !(char_is_alphanumeric(c) || c == '_') {
                break;
            }
            i = i + 1;
        }
        let text = self.text_of(tokstart, i);
        let kind = match keyword_of_chars(&text) {
            Some(k) => k,
            None => TokenType::Word,
        };
        (Ok(Token { kind, span: self.new_span(tokstart, i) }), i)
    }

    /// The quoted-literal loop; `tokstart` is the opening quote's position.
    fn lex_string(&self, tokstart: usize, quote: char) -> (r: (
        Result<Token, Spanned<LexError>>,
        usize,
    ))
        requires
            self.wf(),
            tokstart < self.src_chars().len(),
        ensures
            out_obeys(scan_string(self.src_chars(), tokstart as int, quote), self.file(), r.0),
            r.1 as int == out_next(
                scan_string(self.src_chars(), tokstart as int, quote),
                tokstart as int,
            ),
            tokstart <= r.1 <= self.src_chars().len(),
    {
        let ghost s = self.src_chars();
        let len: usize = self.src.len();
        let mut i: usize = tokstart + 1;
        let mut escaped = false;
        let mut buffer: Vec<char> = Vec::new();
        proof {
            match scan_string_rec(s, tokstart + 1, quote, false) {
                StrScan::Done { content, end } => {
                    assert(buffer@.add(content) =~= content);
                },
                _ => {},
            }
        }
        loop
            invariant
                self.wf(),
                tokstart + 1 <= i <= len,
                len == s.len(),
                s == self.src_chars(),
                scan_string_rec(s, tokstart + 1, quote, false) == (match scan_string_rec(
                    s,
                    i as int,
                    quote,
                    escaped,
                ) {
                    StrScan::Done { content, end } => StrScan::Done {
                        content: buffer@.add(content),
                        end,
                    },
                    other => other,
                }),
            decreases len - i,
        {
            if i >= len {
                return (
                    (
                        Err(
                            Spanned {
                                item: LexError::UnterminatedStr(quote),
                                span: self.new_span(tokstart, tokstart + 1),
                            },
                        ),
                        tokstart,
                    )
                );
            }
            let c = self.src[i];
            let ghost rest = scan_string_rec(s, i + 1, quote, false);
            if escaped {
                match unescape_char(c) {
                    Some(e) => {
                        proof {
                            if let StrScan::Done { content, end } = rest {
                                assert(buffer@.add(seq![e].add(content)) =~= buffer@.push(e).add(
                                    content,
                                ));
                            }
                        }
                        buffer.push(e);
                        escaped = false;
                        i = i + 1;
                    },
                    None => {
                        return (
                            (
                                Err(
                                    Spanned {
                                        item: LexError::InvalidEscape,
                                        span: self.new_span(tokstart, i + 1),
                                    },
                                ),
                                tokstart,
                            )
                        );
                    },
                }
            } else if c == '\\' {
                escaped = true;
                i = i + 1;
            } else if c == quote {
                proof {
                    assert(buffer@.add(Seq::<char>::empty()) =~= buffer@);
                }
                i = i + 1;
                return ((Ok(Token { kind: TokenType::Str(buffer), span: self.new_span(tokstart, i) }), i));
            } else {
                proof {
                    if let StrScan::Done { content, end } = rest {
                        assert(buffer@.add(seq![c].add(content)) =~= buffer@.push(c).add(content));
                    }
                }
                buffer.push(c);
                i = i + 1;
            }
        }
    }

    /// The nested block-comment loop; `tokstart` is the position of the
    /// opening `<*`.
    fn multi_comment(&self, tokstart: usize) -> (r: (Result<Token, Spanned<LexError>>, usize))
        requires
            self.wf(),
            tokstart + 2 <= self.src_chars().len(),
        ensures
            out_obeys(scan_comment(self.src_chars(), tokstart as int), self.file(), r.0),
            r.1 as int == out_next(scan_comment(self.src_chars(), tokstart as int), tokstart as int),
            tokstart <= r.1 <= self.src_chars().len(),
    {
        let ghost s = self.src_chars();
        let len: usize = self.src.len();
        let mut i: usize = tokstart + 2;
        let mut nest: usize = 1;
        let mut hi: usize = tokstart + 2;
        loop
            invariant
                self.wf(),
                tokstart + 2 <= hi <= i <= len,
                len == s.len(),
                s == self.src_chars(),
                1 <= nest <= i,
                scan_comment_rec(s, tokstart + 2, 1, tokstart + 2) == scan_comment_rec(
                    s,
                    i as int,
                    nest as int,
                    hi as int,
                ),
            decreases len - i,
        {
            if i >= len {
                return (
                    (
                        Err(
                            Spanned {
                                item: LexError::UnterminatedComment,
                                span: self.new_span(tokstart, len),
                            },
                        ),
                        tokstart,
                    )
                );
            }
            let c = self.src[i];
            if c == '*' && i + 1 < len && self.src[i + 1] == '>' {
                if nest == 1 {
                    return (
                        (
                            Ok(
                                Token {
                                    kind: TokenType::Comment,
                                    span: self.new_span(tokstart + 2, hi),
                                },
                            ),
                            i + 2,
                        )
                    );
                }
                nest = nest - 1;
                i = i + 2;
            } else if c == '<' && i + 1 < len && self.src[i + 1] == '*' {
                nest = nest + 1;
                i = i + 2;
            } else {
                hi = i + 1;
                i = i + 1;
            }
        }
    }

    /// Reads `<`: a comment, a left closer `</`, a fragment close `</>`, or
    /// a bare `Lesser`.
    fn lex_lesser_token(&self, tokstart: usize) -> (r: (Result<Token, Spanned<LexError>>, usize))
        requires
            self.wf(),
            tokstart < self.src_chars().len(),
            self.src_chars()[tokstart as int] == '<',
        ensures
            out_obeys(scan(self.src_chars(), tokstart as int), self.file(), r.0),
            r.1 as int == out_next(scan(self.src_chars(), tokstart as int), tokstart as int),
            tokstart <= r.1 <= self.src_chars().len(),
    {
        let len: usize = self.src.len();
        if tokstart + 1 >= len {
            return ((Ok(Token { kind: TokenType::Lesser, span: self.new_span(tokstart, tokstart + 1) }), tokstart + 1));
        }
        let c1 = self.src[tokstart + 1];
        if c1 == '*' {
            self.multi_comment(tokstart)
        } else if c1 == '/' {
            self.lex_end_token(tokstart)
        } else {
            ((Ok(Token { kind: TokenType::Lesser, span: self.new_span(tokstart, tokstart + 1) }), tokstart + 1))
        }
    }

    /// Reads `</`: the fragment close `</>` if a `>` follows immediately,
    /// the left closer `</` otherwise.
    fn lex_end_token(&self, tokstart: usize) -> (r: (Result<Token, Spanned<LexError>>, usize))
        requires
            self.wf(),
            tokstart + 2 <= self.src_chars().len(),
            self.src_chars()[tokstart as int] == '<',
            self.src_chars()[tokstart as int + 1] == '/',
        ensures
            out_obeys(scan(self.src_chars(), tokstart as int), self.file(), r.0),
            r.1 as int == out_next(scan(self.src_chars(), tokstart as int), tokstart as int),
            tokstart <= r.1 <= self.src_chars().len(),
    {
        let len: usize = self.src.len();
        if tokstart + 2 < len && self.src[tokstart + 2] == '>' {
            ((Ok(Token { kind: TokenType::End, span: self.new_span(tokstart, tokstart + 3) }), tokstart + 3))
        } else {
            ((Ok(Token { kind: TokenType::LCloser, span: self.new_span(tokstart, tokstart + 2) }), tokstart + 2))
        }
    }

    /// Reads a character that is neither punctuation nor whitespace: a
    /// number, an identifier, or an unexpected character.
    fn ident_or_num(&self, c: char, tokstart: usize) -> (r: (Result<Token, Spanned<LexError>>, usize))
        requires
            self.wf(),
            tokstart < self.src_chars().len(),
            self.src_chars()[tokstart as int] == c,
            scan(self.src_chars(), tokstart as int) == (if is_dec_digit_at(self.src_chars(), tokstart as int) {
                scan_number(self.src_chars(), tokstart as int, tokstart as int + 1)
            } else if ident_start_at(self.src_chars(), tokstart as int) {
                scan_ident(self.src_chars(), tokstart as int)
            } else {
                ScanOut::Fail { err: LexError::UnexpectedChar(c), lo: tokstart as int, hi: tokstart as int + 1 }
            }),
        ensures
            out_obeys(scan(self.src_chars(), tokstart as int), self.file(), r.0),
            r.1 as int == out_next(scan(self.src_chars(), tokstart as int), tokstart as int),
            tokstart <= r.1 <= self.src_chars().len(),
    {
        let len: usize = self.src.len();
        if dec_digit(c) {
            return self.lex_number(tokstart, tokstart + 1);
        }
        if char_is_alphanumeric(c) || c == '_' {
            proof {
                crate::scan::lemma_scan_ident_end(self.src_chars(), tokstart as int + 1);
            }
            return self.lex_identifier(tokstart);
        }
        (
            (
                Err(
                    Spanned {
                        item: LexError::UnexpectedChar(c),
                        span: self.new_span(tokstart, tokstart + 1),
                    },
                ),
                tokstart,
            )
        )
    }

    /// Dispatch on the first character of a token at `tokstart`.
    fn token_from_char(&self, c: char, tokstart: usize) -> (r: (
        Result<Token, Spanned<LexError>>,
        usize,
    ))
        requires
            self.wf(),
            tokstart < self.src_chars().len(),
            self.src_chars()[tokstart as int] == c,
        ensures
            out_obeys(scan(self.src_chars(), tokstart as int), self.file(), r.0),
            r.1 as int == out_next(scan(self.src_chars(), tokstart as int), tokstart as int),
            tokstart <= r.1 <= self.src_chars().len(),
    {
        let len: usize = self.src.len();
        match c {
            '.' => self.just(TokenType::Dot, tokstart),
            ',' => self.just(TokenType::Comma, tokstart),
            '{' => self.just(TokenType::LBrace, tokstart),
            '}' => self.just(TokenType::RBrace, tokstart),
            '(' => self.just(TokenType::LParen, tokstart),
            ')' => self.just(TokenType::RParen, tokstart),
            '[' => self.just(TokenType::LBracket, tokstart),
            ']' => self.just(TokenType::RBracket, tokstart),
            '%' => self.just(TokenType::Percent, tokstart),
            ':' => self.just(TokenType::Colon, tokstart),
            '$' => self.just(TokenType::Dollar, tokstart),
            '@' => self.just(TokenType::At, tokstart),
            '|' => self.just(TokenType::Pipe, tokstart),
            '&' => self.just(TokenType::Ampersand, tokstart),
            '?' => self.just(TokenType::Question, tokstart),
            '!' => self.just(TokenType::Bang, tokstart),
            '"' => self.lex_string(tokstart, '"'),
            '\'' => self.lex_string(tokstart, '\''),
            '\r' => {
                if tokstart + 1 < len && self.src[tokstart + 1] == '\n' {
                    (
                        (
                            Ok(
                                Token {
                                    kind: TokenType::NewLine,
                                    span: self.new_span(tokstart, tokstart + 1),
                                },
                            ),
                            tokstart + 2,
                        )
                    )
                } else {
                    self.just(TokenType::Space, tokstart)
                }
            },
            '\n' => self.just(TokenType::NewLine, tokstart),
            ' ' => self.just(TokenType::Space, tokstart),
            '\t' => self.just(TokenType::Space, tokstart),
            '*' => self.just(TokenType::Star, tokstart),
            '-' => {
                if tokstart + 1 < len && char_is_alphanumeric(self.src[tokstart + 1]) {
                    self.lex_number(tokstart, tokstart + 1)
                } else {
                    self.just(TokenType::Minus, tokstart)
                }
            },
            '>' => self.just(TokenType::Greater, tokstart),
            '/' => {
                if tokstart + 1 < len && self.src[tokstart + 1] == '>' {
                    (
                        (
                            Ok(
                                Token {
                                    kind: TokenType::RCloser,
                                    span: self.new_span(tokstart, tokstart + 2),
                                },
                            ),
                            tokstart + 2,
                        )
                    )
                } else {
                    self.just(TokenType::Slash, tokstart)
                }
            },
            '=' => self.just(TokenType::Equal, tokstart),
            '<' => self.lex_lesser_token(tokstart),
            _ => self.ident_or_num(c, tokstart),
        }
    }

    /// A single-character token of kind `kind` at `tokstart`.
    fn just(&self, kind: TokenType, tokstart: usize) -> (r: (
        Result<Token, Spanned<LexError>>,
        usize,
    ))
        requires
            tokstart < self.src_chars().len(),
        ensures
            r.0 matches Ok(t) && t.kind == kind && t.span == (Span {
                file_id: self.file(),
                start: tokstart,
                end: (tokstart + 1) as usize,
            }),
            r.1 == tokstart + 1,
    {
        let len: usize = self.src.len();
        ((Ok(Token { kind, span: self.new_span(tokstart, tokstart + 1) }), tokstart + 1))
    }

    /// Scans the token beginning at cursor position `i` without touching the
    /// lexer; returns the outcome and the cursor position after it.
    fn scan_at(&self, i: usize) -> (r: (Result<Token, Spanned<LexError>>, usize))
        requires
            self.wf(),
            i <= self.src_chars().len(),
        ensures
            out_obeys(scan(self.src_chars(), i as int), self.file(), r.0),
            r.1 as int == out_next(scan(self.src_chars(), i as int), i as int),
            i <= r.1 <= self.src_chars().len(),
    {
        if i >= self.src.len() {
            let len = self.src.len();
            return ((Ok(self.make_eof_token()), len));
        }
        let c = self.src[i];
        self.token_from_char(c, i)
    }

    /// Returns the next token without consuming it.
    pub fn peek(&self) -> (r: Result<Token, Spanned<LexError>>)
        requires
            self.wf(),
        ensures
            out_obeys(scan(self.src_chars(), self.pos()), self.file(), r),
    {
        let (r, _) = self.scan_at(self.index);
        r
    }

    /// Returns the second upcoming token without consuming anything. An
    /// error in the first token is reported first.
    pub fn peek_next(&self) -> (r: Result<Token, Spanned<LexError>>)
        requires
            self.wf(),
        ensures
            match scan(self.src_chars(), self.pos()) {
                ScanOut::Tok { next, .. } => out_obeys(
                    scan(self.src_chars(), next),
                    self.file(),
                    r,
                ),
                ScanOut::Fail { .. } => out_obeys(
                    scan(self.src_chars(), self.pos()),
                    self.file(),
                    r,
                ),
            },
    {
        let (first, j) = self.scan_at(self.index);
        match first {
            Err(e) => Err(e),
            Ok(_) => {
                let (second, _) = self.scan_at(j);
                second
            },
        }
    }

    /// Consumes and returns the next token. On stream exhaustion it returns
    /// the degenerate `Eof` token, forever; on a lexical error the cursor
    /// does not move.
    pub fn next(&mut self) -> (r: Result<Token, Spanned<LexError>>)
        requires
            old(self).wf(),
        ensures
            final(self).src_chars() == old(self).src_chars(),
            final(self).file() == old(self).file(),
            final(self).wf(),
            out_obeys(scan(old(self).src_chars(), old(self).pos()), old(self).file(), r),
            final(self).pos() == out_next(
                scan(old(self).src_chars(), old(self).pos()),
                old(self).pos(),
            ),
    {
        let (r, j) = self.scan_at(self.index);
        match &r {
            Ok(_) => {
                self.index = j;
            },
            Err(_) => {},
        }
        r
    }
}

/// Whether the character at `i` is an ASCII decimal digit.
pub open spec fn is_dec_digit_at(s: Seq<char>, i: int) -> bool {
    crate::chars::is_dec_digit(s[i])
}

/// Whether the character at `i` may begin an identifier.
pub open spec fn ident_start_at(s: Seq<char>, i: int) -> bool {
    crate::chars::unicode_alphanumeric(s[i]) || s[i] == '_'
}

/// Law: at or past the end of the input, scanning always yields the
/// degenerate `Eof` token spanning `[len, len)` and leaves the cursor at the
/// end, so calling `next` repeatedly after exhaustion returns `Eof` forever
/// and never errors.
pub proof fn lemma_eof_idempotent(s: Seq<char>, i: int)
    requires
        i >= s.len(),
    ensures
        scan(s, i) == (ScanOut::Tok {
            kind: TokenTypeV::Eof,
            lo: s.len() as int,
            hi: s.len() as int,
            next: s.len() as int,
        }),
        out_next(scan(s, i), i) == s.len(),
{
}

/// Enumerates the full raw token stream for a buffer: every token up to, but
/// excluding, the final `Eof`; or the first lexical error.
pub fn tokenize(input: &str, file_id: FileID) -> (r: Result<Vec<Token>, Spanned<LexError>>)
    ensures
        match r {
            Ok(toks) => spec_lex(input@, 0) == Ok::<Seq<TokInfo>, LexFail>(
                toks@.map_values(|t: Token| tok_info(t)),
            ) && forall|k: int|
                0 <= k < toks@.len() ==> (#[trigger] toks@[k]).span.file_id == file_id,
            Err(e) => spec_lex(input@, 0) matches Err(f) && e.item == f.err && e.span.file_id
                == file_id && e.span.start == f.lo && e.span.end == f.hi,
        },
{
    let ghost s = input@;
    let mut lexer = Lexer::new(input, file_id);
    let mut buf: Vec<Token> = Vec::new();
    proof {
        assert(buf@.map_values(|t: Token| tok_info(t)) =~= Seq::<TokInfo>::empty());
        match spec_lex(s, 0) {
            Ok(rest) => {
                assert(buf@.map_values(|t: Token| tok_info(t)).add(rest) =~= rest);
            },
            Err(_) => {},
        }
    }
    loop
        invariant
            lexer.wf(),
            lexer.src_chars() == s,
            lexer.file() == file_id,
            s == input@,
            spec_lex(s, 0) == (match spec_lex(s, lexer.pos()) {
                Ok(rest) => Ok::<Seq<TokInfo>, LexFail>(
                    buf@.map_values(|t: Token| tok_info(t)).add(rest),
                ),
                Err(e) => Err::<Seq<TokInfo>, LexFail>(e),
            }),
            forall|k: int| 0 <= k < buf@.len() ==> (#[trigger] buf@[k]).span.file_id == file_id,
        decreases s.len() - lexer.pos(),
    {
        let ghost p = lexer.pos();
        proof {
            crate::scan::lemma_scan(s, p);
        }
        let t = match lexer.next() {
            Ok(t) => t,
            Err(e) => {
                return Err(e);
            },
        };
        match &t.kind {
            TokenType::Eof => {
                proof {
                    assert(buf@.map_values(|t: Token| tok_info(t)).add(Seq::<TokInfo>::empty())
                        =~= buf@.map_values(|t: Token| tok_info(t)));
                }
                return Ok(buf);
            },
            _ => {},
        }
        proof {
            let ghost info = tok_info(t);
            match spec_lex(s, lexer.pos()) {
                Ok(rest) => {
                    assert(buf@.map_values(|t: Token| tok_info(t)).add(
                        seq![info].add(rest),
                    ) =~= buf@.push(t).map_values(|t: Token| tok_info(t)).add(rest));
                },
                Err(_) => {},
            }
        }
        buf.push(t);
    }
}

} // verus!
