//! The token model: lexical kinds, the spanned `Token`, and the comparison
//! helpers the parser uses to look ahead.

use vstd::prelude::*;

use crate::chars::chars_eq;
use crate::chars::str_to_chars;
use crate::spans::Span;

verus! {

/// The closed set of lexical kinds. `Str` carries the decoded characters of a
/// quoted literal (escape sequences already replaced); every other kind is
/// identified by its source text alone.
#[derive(Clone, Debug, PartialEq, Eq, Hash)]
pub enum TokenType {
    Str(Vec<char>),
    At,
    Dollar,
    Float,
    Int,
    Word,
    Minus,
    Star,
    Slash,
    LParen,
    RParen,
    LBrace,
    RBrace,
    LBracket,
    RBracket,
    Equal,
    Dot,
    Lesser,
    Greater,
    Comma,
    Colon,
    Bang,
    Percent,
    False,
    True,
    Ampersand,
    Pipe,
    Null,
    Question,
    Eof,
    Comment,
    End,
    Space,
    NewLine,
    LCloser,
    RCloser,
}

/// The mathematical image of a `TokenType`: identical, except that a quoted
/// literal's characters are a sequence.
pub enum TokenTypeV {
    Str(Seq<char>),
    At,
    Dollar,
    Float,
    Int,
    Word,
    Minus,
    Star,
    Slash,
    LParen,
    RParen,
    LBrace,
    RBrace,
    LBracket,
    RBracket,
    Equal,
    Dot,
    Lesser,
    Greater,
    Comma,
    Colon,
    Bang,
    Percent,
    False,
    True,
    Ampersand,
    Pipe,
    Null,
    Question,
    Eof,
    Comment,
    End,
    Space,
    NewLine,
    LCloser,
    RCloser,
}

impl View for TokenType {
    type V = TokenTypeV;

    open spec fn view(&self) -> TokenTypeV {
        match self {
            TokenType::Str(v) => TokenTypeV::Str(v@),
            TokenType::At => TokenTypeV::At,
            TokenType::Dollar => TokenTypeV::Dollar,
            TokenType::Float => TokenTypeV::Float,
            TokenType::Int => TokenTypeV::Int,
            TokenType::Word => TokenTypeV::Word,
            TokenType::Minus => TokenTypeV::Minus,
            TokenType::Star => TokenTypeV::Star,
            TokenType::Slash => TokenTypeV::Slash,
            TokenType::LParen => TokenTypeV::LParen,
            TokenType::RParen => TokenTypeV::RParen,
            TokenType::LBrace => TokenTypeV::LBrace,
            TokenType::RBrace => TokenTypeV::RBrace,
            TokenType::LBracket => TokenTypeV::LBracket,
            TokenType::RBracket => TokenTypeV::RBracket,
            TokenType::Equal => TokenTypeV::Equal,
            TokenType::Dot => TokenTypeV::Dot,
            TokenType::Lesser => TokenTypeV::Lesser,
            TokenType::Greater => TokenTypeV::Greater,
            TokenType::Comma => TokenTypeV::Comma,
            TokenType::Colon => TokenTypeV::Colon,
            TokenType::Bang => TokenTypeV::Bang,
            TokenType::Percent => TokenTypeV::Percent,
            TokenType::False => TokenTypeV::False,
            TokenType::True => TokenTypeV::True,
            TokenType::Ampersand => TokenTypeV::Ampersand,
            TokenType::Pipe => TokenTypeV::Pipe,
            TokenType::Null => TokenTypeV::Null,
            TokenType::Question => TokenTypeV::Question,
            TokenType::Eof => TokenTypeV::Eof,
            TokenType::Comment => TokenTypeV::Comment,
            TokenType::End => TokenTypeV::End,
            TokenType::Space => TokenTypeV::Space,
            TokenType::NewLine => TokenTypeV::NewLine,
            TokenType::LCloser => TokenTypeV::LCloser,
            TokenType::RCloser => TokenTypeV::RCloser,
        }
    }
}

/// Whether two lexical kinds are the same, payload included.
pub fn token_type_eq(a: &TokenType, b: &TokenType) -> (r: bool)
    ensures
        r == (a@ == b@),
{
    match (a, b) {
        (TokenType::Str(x), TokenType::Str(y)) => chars_eq(x, y),
        (TokenType::At, TokenType::At) => true,
        (TokenType::Dollar, TokenType::Dollar) => true,
        (TokenType::Float, TokenType::Float) => true,
        (TokenType::Int, TokenType::Int) => true,
        (TokenType::Word, TokenType::Word) => true,
        (TokenType::Minus, TokenType::Minus) => true,
        (TokenType::Star, TokenType::Star) => true,
        (TokenType::Slash, TokenType::Slash) => true,
        (TokenType::LParen, TokenType::LParen) => true,
        (TokenType::RParen, TokenType::RParen) => true,
        (TokenType::LBrace, TokenType::LBrace) => true,
        (TokenType::RBrace, TokenType::RBrace) => true,
        (TokenType::LBracket, TokenType::LBracket) => true,
        (TokenType::RBracket, TokenType::RBracket) => true,
        (TokenType::Equal, TokenType::Equal) => true,
        (TokenType::Dot, TokenType::Dot) => true,
        (TokenType::Lesser, TokenType::Lesser) => true,
        (TokenType::Greater, TokenType::Greater) => true,
        (TokenType::Comma, TokenType::Comma) => true,
        (TokenType::Colon, TokenType::Colon) => true,
        (TokenType::Bang, TokenType::Bang) => true,
        (TokenType::Percent, TokenType::Percent) => true,
        (TokenType::False, TokenType::False) => true,
        (TokenType::True, TokenType::True) => true,
        (TokenType::Ampersand, TokenType::Ampersand) => true,
        (TokenType::Pipe, TokenType::Pipe) => true,
        (TokenType::Null, TokenType::Null) => true,
        (TokenType::Question, TokenType::Question) => true,
        (TokenType::Eof, TokenType::Eof) => true,
        (TokenType::Comment, TokenType::Comment) => true,
        (TokenType::End, TokenType::End) => true,
        (TokenType::Space, TokenType::Space) => true,
        (TokenType::NewLine, TokenType::NewLine) => true,
        (TokenType::LCloser, TokenType::LCloser) => true,
        (TokenType::RCloser, TokenType::RCloser) => true,
        _ => false,
    }
}

/// A copy of a lexical kind, with the same mathematical image.
pub fn clone_token_type(t: &TokenType) -> (r: TokenType)
    ensures
        r@ == t@,
{
    match t {
        TokenType::Str(v) => TokenType::Str(crate::chars::clone_chars(v)),
        TokenType::At => TokenType::At,
        TokenType::Dollar => TokenType::Dollar,
        TokenType::Float => TokenType::Float,
        TokenType::Int => TokenType::Int,
        TokenType::Word => TokenType::Word,
        TokenType::Minus => TokenType::Minus,
        TokenType::Star => TokenType::Star,
        TokenType::Slash => TokenType::Slash,
        TokenType::LParen => TokenType::LParen,
        TokenType::RParen => TokenType::RParen,
        TokenType::LBrace => TokenType::LBrace,
        TokenType::RBrace => TokenType::RBrace,
        TokenType::LBracket => TokenType::LBracket,
        TokenType::RBracket => TokenType::RBracket,
        TokenType::Equal => TokenType::Equal,
        TokenType::Dot => TokenType::Dot,
        TokenType::Lesser => TokenType::Lesser,
        TokenType::Greater => TokenType::Greater,
        TokenType::Comma => TokenType::Comma,
        TokenType::Colon => TokenType::Colon,
        TokenType::Bang => TokenType::Bang,
        TokenType::Percent => TokenType::Percent,
        TokenType::False => TokenType::False,
        TokenType::True => TokenType::True,
        TokenType::Ampersand => TokenType::Ampersand,
        TokenType::Pipe => TokenType::Pipe,
        TokenType::Null => TokenType::Null,
        TokenType::Question => TokenType::Question,
        TokenType::Eof => TokenType::Eof,
        TokenType::Comment => TokenType::Comment,
        TokenType::End => TokenType::End,
        TokenType::Space => TokenType::Space,
        TokenType::NewLine => TokenType::NewLine,
        TokenType::LCloser => TokenType::LCloser,
        TokenType::RCloser => TokenType::RCloser,
    }
}

/// A copy of a token, with the same kind image and span.
pub fn clone_token(t: &Token) -> (r: Token)
    ensures
        r.kind@ == t.kind@,
        r.span == t.span,
{
    Token { kind: clone_token_type(&t.kind), span: t.span }
}

impl TokenType {
    pub fn to_token(self, span: Span) -> (t: Token)
        ensures
            t.kind == self,
            t.span == span,
    {
        Token::new(self, span)
    }
}

/// The printable name of a lexical kind, for building messages.
pub open spec fn spec_kind_name(k: TokenTypeV) -> Seq<char> {
    match k {
        TokenTypeV::Str(_) => "Str"@,
        TokenTypeV::At => "At"@,
        TokenTypeV::Dollar => "Dollar"@,
        TokenTypeV::Float => "Float"@,
        TokenTypeV::Int => "Int"@,
        TokenTypeV::Word => "Word"@,
        TokenTypeV::Minus => "Minus"@,
        TokenTypeV::Star => "Star"@,
        TokenTypeV::Slash => "Slash"@,
        TokenTypeV::LParen => "LParen"@,
        TokenTypeV::RParen => "RParen"@,
        TokenTypeV::LBrace => "LBrace"@,
        TokenTypeV::RBrace => "RBrace"@,
        TokenTypeV::LBracket => "LBracket"@,
        TokenTypeV::RBracket => "RBracket"@,
        TokenTypeV::Equal => "Equal"@,
        TokenTypeV::Dot => "Dot"@,
        TokenTypeV::Lesser => "Lesser"@,
        TokenTypeV::Greater => "Greater"@,
        TokenTypeV::Comma => "Comma"@,
        TokenTypeV::Colon => "Colon"@,
        TokenTypeV::Bang => "Bang"@,
        TokenTypeV::Percent => "Percent"@,
        TokenTypeV::False => "False"@,
        TokenTypeV::True => "True"@,
        TokenTypeV::Ampersand => "Ampersand"@,
        TokenTypeV::Pipe => "Pipe"@,
        TokenTypeV::Null => "Null"@,
        TokenTypeV::Question => "Question"@,
        TokenTypeV::Eof => "Eof"@,
        TokenTypeV::Comment => "Comment"@,
        TokenTypeV::End => "End"@,
        TokenTypeV::Space => "Space"@,
        TokenTypeV::NewLine => "NewLine"@,
        TokenTypeV::LCloser => "LCloser"@,
        TokenTypeV::RCloser => "RCloser"@,
    }
}

impl TokenType {
    /// The kind's printable name.
    pub fn name(&self) -> (r: &'static str)
        ensures
            r@ == spec_kind_name(self@),
    {
        match self {
            TokenType::Str(_) => "Str",
            TokenType::At => "At",
            TokenType::Dollar => "Dollar",
            TokenType::Float => "Float",
            TokenType::Int => "Int",
            TokenType::Word => "Word",
            TokenType::Minus => "Minus",
            TokenType::Star => "Star",
            TokenType::Slash => "Slash",
            TokenType::LParen => "LParen",
            TokenType::RParen => "RParen",
            TokenType::LBrace => "LBrace",
            TokenType::RBrace => "RBrace",
            TokenType::LBracket => "LBracket",
            TokenType::RBracket => "RBracket",
            TokenType::Equal => "Equal",
            TokenType::Dot => "Dot",
            TokenType::Lesser => "Lesser",
            TokenType::Greater => "Greater",
            TokenType::Comma => "Comma",
            TokenType::Colon => "Colon",
            TokenType::Bang => "Bang",
            TokenType::Percent => "Percent",
            TokenType::False => "False",
            TokenType::True => "True",
            TokenType::Ampersand => "Ampersand",
            TokenType::Pipe => "Pipe",
            TokenType::Null => "Null",
            TokenType::Question => "Question",
            TokenType::Eof => "Eof",
            TokenType::Comment => "Comment",
            TokenType::End => "End",
            TokenType::Space => "Space",
            TokenType::NewLine => "NewLine",
            TokenType::LCloser => "LCloser",
            TokenType::RCloser => "RCloser",
        }
    }
}

/// A lexical kind together with the source range it was read from.
#[derive(Clone, Debug, PartialEq, Eq, Hash)]
pub struct Token {
    pub kind: TokenType,
    pub span: Span,
}

impl Token {
    pub fn new(kind: TokenType, span: Span) -> (t: Token)
        ensures
            t.kind == kind,
            t.span == span,
    {
        Token { kind, span }
    }
}

/// The kinds the parser skips when looking for structure: formatting and
/// comments.
pub open spec fn insignificant(k: TokenTypeV) -> bool {
    k == TokenTypeV::Comment || k == TokenTypeV::Space || k == TokenTypeV::NewLine
}

/// The kinds that end a run of plain text: the openers of markup structure.
pub open spec fn delimiter(k: TokenTypeV) -> bool {
    k == TokenTypeV::Lesser || k == TokenTypeV::LCloser || k == TokenTypeV::End
}

/// Lookahead comparisons shared by `Token` and `Option<Token>`.
pub trait TokenEq: Sized {
    /// The lexical kind carried, if any.
    spec fn spec_kind(&self) -> Option<TokenTypeV>;

    /// Whether the carried kind is `kind`, payload included.
    fn is(&self, kind: &TokenType) -> (r: bool)
        ensures
            r == (self.spec_kind() == Some(kind@)),
    ;

    /// Whether the carried kind is any of `kinds`.
    fn is_any(&self, kinds: &[TokenType]) -> (r: bool)
        ensures
            r == exists|i: int| 0 <= i < kinds@.len() && self.spec_kind() == Some(kinds@[i]@),
    ;

    /// `Some(self)` when the carried kind is `kind`, `None` otherwise.
    fn matches(self, kind: &TokenType) -> (r: Option<Self>)
        ensures
            self.spec_kind() == Some(kind@) ==> r == Some(self),
            self.spec_kind() != Some(kind@) ==> r is None,
    {
        if self.is(kind) {
            return Some(self);
        }
        None
    }

    /// `Some(&self)` when the carried kind is `kind`, `None` otherwise.
    fn ref_matches(&self, kind: &TokenType) -> (r: Option<&Self>)
        ensures
            self.spec_kind() == Some(kind@) ==> r == Some(self),
            self.spec_kind() != Some(kind@) ==> r is None,
    {
        if self.is(kind) {
            return Some(self);
        }
        None
    }

    /// Whether the token matters for structure: not a comment, a space or a
    /// newline.
    fn is_significant(&self) -> (r: bool)
        ensures
            r == !(self.spec_kind() matches Some(k) && insignificant(k)),
    {
        self.isnt_any(&[TokenType::Comment, TokenType::Space, TokenType::NewLine])
    }

    /// Inverse of [`Self::is`].
    fn isnt(&self, kind: &TokenType) -> (r: bool)
        ensures
            r == (self.spec_kind() != Some(kind@)),
    {
        !self.is(kind)
    }

    /// Inverse of [`Self::is_significant`].
    fn isnt_significant(&self) -> (r: bool)
        ensures
            r == (self.spec_kind() matches Some(k) && insignificant(k)),
    {
        !self.is_significant()
    }

    /// Inverse of [`Self::is_any`].
    fn isnt_any(&self, kinds: &[TokenType]) -> (r: bool)
        ensures
            r == !exists|i: int| 0 <= i < kinds@.len() && self.spec_kind() == Some(kinds@[i]@),
    {
        !self.is_any(kinds)
    }

    /// Whether the token opens or closes markup structure.
    fn is_delimiter(&self) -> (r: bool)
        ensures
            r == (self.spec_kind() matches Some(k) && delimiter(k)),
    {
        self.is(&TokenType::Lesser) || self.is(&TokenType::LCloser) || self.is(&TokenType::End)
    }

    /// Whether there is a token here at all: anything but `Eof`.
    fn is_present(&self) -> (r: bool)
        ensures
            r == (self.spec_kind() != Some(TokenTypeV::Eof)),
    {
        self.isnt(&TokenType::Eof)
    }
}

impl TokenEq for Token {
    open spec fn spec_kind(&self) -> Option<TokenTypeV> {
        Some(self.kind@)
    }

    fn is(&self, kind: &TokenType) -> bool {
        token_type_eq(&self.kind, kind)
    }

    fn is_any(&self, kinds: &[TokenType]) -> (r: bool) {
        let n: usize = kinds.len();
        let mut i: usize = 0;
        while i < n
            invariant
                i <= n == kinds@.len(),
                forall|j: int| 0 <= j < i ==> self.kind@ != kinds@[j]@,
            decreases n - i,
        {
            if token_type_eq(&self.kind, &kinds[i]) {
                return true;
            }
            i = i + 1;
        }
        false
    }
}

impl TokenEq for Option<Token> {
    open spec fn spec_kind(&self) -> Option<TokenTypeV> {
        match self {
            Some(t) => Some(t.kind@),
            None => None,
        }
    }

    fn is(&self, kind: &TokenType) -> bool {
        match self {
            Some(t) => token_type_eq(&t.kind, kind),
            None => false,
        }
    }

    fn is_any(&self, kinds: &[TokenType]) -> (r: bool) {
        match self {
            Some(t) => t.is_any(kinds),
            None => false,
        }
    }
}

/// The keyword kind a word maps to, if its characters spell `true`, `false`
/// or `null`.
pub open spec fn spec_map_keyword(s: Seq<char>) -> Option<TokenTypeV> {
    if s == seq!['t', 'r', 'u', 'e'] {
        Some(TokenTypeV::True)
    } else if s == seq!['f', 'a', 'l', 's', 'e'] {
        Some(TokenTypeV::False)
    } else if s == seq!['n', 'u', 'l', 'l'] {
        Some(TokenTypeV::Null)
    } else {
        None
    }
}

/// The keyword kind of a word's characters, if any.
pub(crate) fn keyword_of_chars(text: &Vec<char>) -> (r: Option<TokenType>)
    ensures
        match r {
            Some(t) => spec_map_keyword(text@) == Some(t@),
            None => spec_map_keyword(text@) is None,
        },
{
    proof {
        assert(seq!['t', 'r', 'u', 'e'].len() == 4);
        assert(seq!['f', 'a', 'l', 's', 'e'].len() == 5);
        assert(seq!['n', 'u', 'l', 'l'].len() == 4);
    }
    if text.len() == 4 && text[0] == 't' && text[1] == 'r' && text[2] == 'u' && text[3] == 'e' {
        proof {
            assert(text@ =~= seq!['t', 'r', 'u', 'e']);
        }
        Some(TokenType::True)
    } else if text.len() == 5 && text[0] == 'f' && text[1] == 'a' && text[2] == 'l' && text[3]
        == 's' && text[4] == 'e' {
        proof {
            assert(text@ =~= seq!['f', 'a', 'l', 's', 'e']);
        }
        Some(TokenType::False)
    } else if text.len() == 4 && text[0] == 'n' && text[1] == 'u' && text[2] == 'l' && text[3]
        == 'l' {
        proof {
            assert(text@ =~= seq!['n', 'u', 'l', 'l']);
        }
        Some(TokenType::Null)
    } else {
        None
    }
}

/// The keyword kind of a word, if its text spells `true`, `false` or `null`.
pub fn map_keyword(text: &str) -> (r: Option<TokenType>)
    ensures
        match r {
            Some(t) => spec_map_keyword(text@) == Some(t@),
            None => spec_map_keyword(text@) is None,
        },
{
    let v = str_to_chars(text);
    keyword_of_chars(&v)
}

} // verus!
