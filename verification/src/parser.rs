//! The recursive-descent parser: it pulls tokens from the lexer on demand
//! and builds the span-annotated syntax tree, owning tag matching, raw-text
//! islands and property parsing. Parsing is fail-fast: the first lexical or
//! syntactic error aborts the whole parse.

use vstd::prelude::*;

use crate::chars::chars_to_string;
use crate::errors::CompileError;
use crate::errors::LexError;
use crate::errors::ParseError;
use crate::lexer::Lexer;
use crate::nodes::Element;
use crate::nodes::Node;
use crate::nodes::Value;
use crate::nodes::ValueV;
use crate::props::PropMap;
use crate::scan::lemma_scan;
use crate::scan::out_next;
use crate::scan::scan;
use crate::scan::ScanOut;
use crate::spans::FileID;
use crate::spans::Span;
use crate::spans::Spanned;
use crate::text::parse_int_chars;
use crate::text::spec_parse_int;
use crate::text::spec_trim;
use crate::text::strip_underscores;
use crate::text::strip_underscores_chars;
use crate::text::trim_chars;
use crate::tokens::clone_token;
use crate::tokens::clone_token_type;
use crate::tokens::delimiter;
use crate::tokens::insignificant;
use crate::tokens::Token;
use crate::tokens::TokenEq;
use crate::tokens::TokenType;
use crate::tokens::TokenTypeV;

verus! {

/// How a parser-level token read realises a scan outcome: the token itself,
/// or the lexical error wrapped in the shared error union.
pub open spec fn tok_obeys(out: ScanOut, fid: FileID, r: Result<Token, CompileError>) -> bool {
    match out {
        ScanOut::Tok { kind, lo, hi, next } => r matches Ok(t) && t.kind@ == kind
            && t.span.file_id == fid && t.span.start == lo && t.span.end == hi,
        ScanOut::Fail { err, lo, hi } => r matches Err(CompileError::Lex(e)) && e.item == err
            && e.span.file_id == fid && e.span.start == lo && e.span.end == hi,
    }
}

/// Position of the first significant (or `Eof`) token at or after `i`; a
/// lexical error also stops the skipping.
pub open spec fn skip_ws(s: Seq<char>, i: int) -> int
    decreases s.len() - i,
    when 0 <= i <= s.len()
    via skip_ws_dec
{
    match scan(s, i) {
        ScanOut::Tok { kind, lo, hi, next } => {
            if kind == TokenTypeV::Eof || !insignificant(kind) {
                i
            } else {
                skip_ws(s, next)
            }
        },
        ScanOut::Fail { .. } => i,
    }
}

#[via_fn]
proof fn skip_ws_dec(s: Seq<char>, i: int) {
    lemma_scan(s, i);
}

/// Skipping insignificant tokens never moves the cursor backwards or past
/// the end of the input.
pub proof fn lemma_skip_ws(s: Seq<char>, i: int)
    requires
        0 <= i <= s.len(),
    ensures
        i <= skip_ws(s, i) <= s.len(),
    decreases s.len() - i,
{
    lemma_scan(s, i);
    match scan(s, i) {
        ScanOut::Tok { kind, next, .. } => {
            if !(kind == TokenTypeV::Eof || !insignificant(kind)) {
                lemma_skip_ws(s, next);
            }
        },
        ScanOut::Fail { .. } => {},
    }
}

/// Position of the first literal `<` at or after `i`, or the end of input:
/// where a raw-text run stops.
pub open spec fn raw_end(s: Seq<char>, i: int) -> int
    decreases s.len() - i,
    when 0 <= i <= s.len()
{
    if i >= s.len() {
        i
    } else if s[i] == '<' {
        i
    } else {
        raw_end(s, i + 1)
    }
}

pub proof fn lemma_raw_end(s: Seq<char>, i: int)
    requires
        0 <= i <= s.len(),
    ensures
        i <= raw_end(s, i) <= s.len(),
    decreases s.len() - i,
{
    if i < s.len() && s[i] != '<' {
        lemma_raw_end(s, i + 1);
    }
}

/// Outcome of a plain-text run: the concatenated source text of the
/// consumed tokens, the end of the last consumed token's span, and the
/// cursor afterwards; or the lexical error that interrupted it.
pub enum TextRun {
    Run { text: Seq<char>, last_hi: int, next: int },
    Failed { err: LexError, lo: int, hi: int },
}

/// The plain-text accumulation loop at cursor `i`, with `cur_hi` the end of
/// the last span consumed so far. It concatenates the source slices of
/// consecutive tokens, skipping comments, and stops before a delimiter
/// (`<`, `</`, `</>`) or at end of input.
pub open spec fn text_run(s: Seq<char>, i: int, cur_hi: int) -> TextRun
    decreases s.len() - i,
    when 0 <= i <= s.len()
    via text_run_dec
{
    match scan(s, i) {
        ScanOut::Fail { err, lo, hi } => TextRun::Failed { err, lo, hi },
        ScanOut::Tok { kind, lo, hi, next } => {
            if kind == TokenTypeV::Eof {
                TextRun::Run { text: Seq::empty(), last_hi: cur_hi, next: i }
            } else if kind == TokenTypeV::Comment {
                text_run(s, next, hi)
            } else {
                let content = s.subrange(lo, hi);
                match scan(s, next) {
                    ScanOut::Fail { err, lo: flo, hi: fhi } => TextRun::Failed {
                        err,
                        lo: flo,
                        hi: fhi,
                    },
                    ScanOut::Tok { kind: k2, .. } => {
                        if delimiter(k2) {
                            TextRun::Run { text: content, last_hi: hi, next }
                        } else {
                            match text_run(s, next, hi) {
                                TextRun::Run { text, last_hi, next: n2 } => TextRun::Run {
                                    text: content.add(text),
                                    last_hi,
                                    next: n2,
                                },
                                f => f,
                            }
                        }
                    },
                }
            }
        },
    }
}

#[via_fn]
proof fn text_run_dec(s: Seq<char>, i: int, cur_hi: int) {
    lemma_scan(s, i);
}

/// A text run never moves backwards: it ends at or after where it began,
/// its last consumed span ends between `cur_hi` and the final cursor, and it
/// consumes at least one token unless it began at end of input.
pub proof fn lemma_text_run(s: Seq<char>, i: int, cur_hi: int)
    requires
        0 <= i <= s.len(),
        match scan(s, i) {
            ScanOut::Tok { hi, .. } => cur_hi <= hi,
            ScanOut::Fail { .. } => true,
        },
    ensures
        match text_run(s, i, cur_hi) {
            TextRun::Run { text, last_hi, next } => cur_hi <= last_hi <= next && i <= next
                <= s.len() && ((scan(s, i) matches ScanOut::Tok { kind, .. } && kind
                != TokenTypeV::Eof) ==> i < next),
            TextRun::Failed { .. } => true,
        },
    decreases s.len() - i,
{
    lemma_scan(s, i);
    match scan(s, i) {
        ScanOut::Fail { .. } => {},
        ScanOut::Tok { kind, lo, hi, next } => {
            if kind == TokenTypeV::Eof {
            } else if kind == TokenTypeV::Comment {
                lemma_scan(s, next);
                lemma_text_run(s, next, hi);
            } else {
                lemma_scan(s, next);
                match scan(s, next) {
                    ScanOut::Fail { .. } => {},
                    ScanOut::Tok { kind: k2, .. } => {
                        if !delimiter(k2) {
                            lemma_text_run(s, next, hi);
                        }
                    },
                }
            }
        },
    }
}

/// A text run that begins at a substantial token starts with that token's
/// first character: the accumulated text is never empty there.
pub proof fn lemma_text_run_first(s: Seq<char>, i: int, cur_hi: int)
    requires
        0 <= i <= s.len(),
    ensures
        match scan(s, i) {
            ScanOut::Tok { kind, lo, .. } => (kind != TokenTypeV::Eof && kind
                != TokenTypeV::Comment) ==> (match text_run(s, i, cur_hi) {
                TextRun::Run { text, .. } => text.len() > 0 && text[0] == s[lo],
                TextRun::Failed { .. } => true,
            }),
            ScanOut::Fail { .. } => true,
        },
{
    lemma_scan(s, i);
    match scan(s, i) {
        ScanOut::Fail { .. } => {},
        ScanOut::Tok { kind, lo, hi, next } => {
            if kind != TokenTypeV::Eof && kind != TokenTypeV::Comment {
                let content = s.subrange(lo, hi);
                assert(content.len() > 0);
                assert(content[0] == s[lo]);
            }
        },
    }
}

/// A text run whose accumulated text trims to nothing consumed only
/// whitespace and comments, so it ends exactly where whitespace skipping
/// ends.
pub proof fn lemma_text_run_ws(s: Seq<char>, i: int, cur_hi: int)
    requires
        0 <= i <= s.len(),
    ensures
        match text_run(s, i, cur_hi) {
            TextRun::Run { text, last_hi: _, next } => crate::text::spec_trim(text).len() == 0
                ==> skip_ws(s, i) == skip_ws(s, next),
            TextRun::Failed { .. } => true,
        },
    decreases s.len() - i,
{
    lemma_scan(s, i);
    crate::scan::lemma_scan_nonws(s, i);
    crate::scan::lemma_scan_ws(s, i);
    match scan(s, i) {
        ScanOut::Fail { .. } => {},
        ScanOut::Tok { kind, lo, hi, next } => {
            if kind == TokenTypeV::Eof {
            } else if kind == TokenTypeV::Comment {
                lemma_text_run_ws(s, next, hi);
            } else {
                let content = s.subrange(lo, hi);
                match scan(s, next) {
                    ScanOut::Fail { .. } => {},
                    ScanOut::Tok { kind: k2, .. } => {
                        if kind != TokenTypeV::Space && kind != TokenTypeV::NewLine {
                            // A substantial token's first character survives
                            // trimming, so the hypothesis cannot hold.
                            match text_run(s, i, cur_hi) {
                                TextRun::Run { text, .. } => {
                                    assert(text[0] == s[lo]);
                                    crate::text::lemma_trim_keeps_any(text, 0);
                                },
                                TextRun::Failed { .. } => {},
                            }
                        } else {
                            // A single whitespace character was consumed.
                            assert(content =~= seq![s[i]]);
                            if !delimiter(k2) {
                                lemma_text_run_ws(s, next, hi);
                                match text_run(s, next, hi) {
                                    TextRun::Run { text: rest, .. } => {
                                        let text = content.add(rest);
                                        if crate::text::spec_trim(text).len() == 0 {
                                            assert forall|j: int|
                                                0 <= j < rest.len() implies crate::text::is_edge_ws(
                                                #[trigger] rest[j],
                                            ) by {
                                                if !crate::text::is_edge_ws(rest[j]) {
                                                    assert(text[1 + j] == rest[j]);
                                                    crate::text::lemma_trim_keeps_any(
                                                        text,
                                                        1 + j,
                                                    );
                                                }
                                            }
                                            crate::text::lemma_trim_all_ws(rest);
                                        }
                                    },
                                    TextRun::Failed { .. } => {},
                                }
                            }
                        }
                    },
                }
            }
        },
    }
}

/// The property value a literal token denotes: booleans and null from
/// their keywords, a float's cleaned text, a string's decoded content, and
/// an integer read from its digits where it fits in 64 bits. Any other
/// token, or an integer out of range, denotes nothing.
pub open spec fn literal_value(s: Seq<char>, kind: TokenTypeV, lo: int, hi: int) -> Option<
    ValueV,
> {
    match kind {
        TokenTypeV::False => Some(ValueV::Bool(false)),
        TokenTypeV::True => Some(ValueV::Bool(true)),
        TokenTypeV::Null => Some(ValueV::Null),
        TokenTypeV::Float => Some(ValueV::Float(strip_underscores(s.subrange(lo, hi)))),
        TokenTypeV::Int => match spec_parse_int(s.subrange(lo, hi)) {
            Some(n) => {
                if i64::MIN <= n <= i64::MAX {
                    Some(ValueV::Int(n))
                } else {
                    None
                }
            },
            None => None,
        },
        TokenTypeV::Str(content) => Some(ValueV::String(content)),
        _ => None,
    }
}

/// Outcome of the property-list loop: the finished map and the cursor
/// position where it stopped, or a failure of any kind.
pub enum PropsRun {
    Done { props: Map<Seq<char>, (ValueV, Span)>, next: int },
    Failed,
}

/// The property-list loop at cursor `i` with the bindings `acc` made so
/// far, in the file `fid`. Each step reads a property name, then either an
/// `=` and a literal value, or records bare presence as `true`; a repeated
/// name overwrites the earlier binding. The loop stops before `>` or `/>`
/// or at end of input; anything else that the grammar refuses is `Failed`.
pub open spec fn props_run(
    s: Seq<char>,
    i: int,
    acc: Map<Seq<char>, (ValueV, Span)>,
    fid: FileID,
) -> PropsRun
    decreases s.len() - i,
    when 0 <= i <= s.len()
    via props_run_dec
{
    match scan(s, i) {
        ScanOut::Fail { .. } => PropsRun::Failed,
        ScanOut::Tok { kind: k0, .. } => {
            if k0 == TokenTypeV::Eof {
                PropsRun::Done { props: acc, next: i }
            } else {
                let j = skip_ws(s, i);
                match scan(s, j) {
                    ScanOut::Fail { .. } => PropsRun::Failed,
                    ScanOut::Tok { kind: kj, lo: name_lo, hi: name_hi, next: name_next } => {
                        if kj == TokenTypeV::Greater || kj == TokenTypeV::RCloser {
                            PropsRun::Done { props: acc, next: j }
                        } else if kj != TokenTypeV::Word {
                            PropsRun::Failed
                        } else {
                            let name = s.subrange(name_lo, name_hi);
                            let j2 = skip_ws(s, name_next);
                            match scan(s, j2) {
                                ScanOut::Fail { .. } => PropsRun::Failed,
                                ScanOut::Tok { kind: k2, lo: sign_lo, hi: sign_hi, next: n2 } => {
                                    if k2 != TokenTypeV::Equal {
                                        props_run(
                                            s,
                                            j2,
                                            acc.insert(
                                                name,
                                                (
                                                    ValueV::Bool(true),
                                                    Span {
                                                        file_id: fid,
                                                        start: sign_lo as usize,
                                                        end: sign_hi as usize,
                                                    },
                                                ),
                                            ),
                                            fid,
                                        )
                                    } else {
                                        let j3 = skip_ws(s, n2);
                                        match scan(s, j3) {
                                            ScanOut::Fail { .. } => PropsRun::Failed,
                                            ScanOut::Tok { kind: k3, lo: val_lo, hi: val_hi, next: n3 } => {
                                                match literal_value(s, k3, val_lo, val_hi) {
                                                    None => PropsRun::Failed,
                                                    Some(v) => props_run(
                                                        s,
                                                        n3,
                                                        acc.insert(
                                                            name,
                                                            (
                                                                v,
                                                                Span {
                                                                    file_id: fid,
                                                                    start: val_lo as usize,
                                                                    end: val_hi as usize,
                                                                },
                                                            ),
                                                        ),
                                                        fid,
                                                    ),
                                                }
                                            },
                                        }
                                    }
                                },
                            }
                        }
                    },
                }
            }
        },
    }
}

#[via_fn]
proof fn props_run_dec(s: Seq<char>, i: int, acc: Map<Seq<char>, (ValueV, Span)>, fid: FileID) {
    lemma_scan(s, i);
    if 0 <= i <= s.len() {
        lemma_skip_ws(s, i);
        let j = skip_ws(s, i);
        lemma_scan(s, j);
        match scan(s, j) {
            ScanOut::Tok { kind: kj, next: name_next, .. } => {
                if 0 <= name_next <= s.len() {
                    lemma_skip_ws(s, name_next);
                    let j2 = skip_ws(s, name_next);
                    lemma_scan(s, j2);
                    match scan(s, j2) {
                        ScanOut::Tok { next: n2, .. } => {
                            if 0 <= n2 <= s.len() {
                                lemma_skip_ws(s, n2);
                                let j3 = skip_ws(s, n2);
                                lemma_scan(s, j3);
                            }
                        },
                        ScanOut::Fail { .. } => {},
                    }
                }
            },
            ScanOut::Fail { .. } => {},
        }
    }
}

/// Any error is anchored in the parsed file: its span is ordered, lies
/// within the source `s`, and names the file `fid`.
pub open spec fn err_anchored<T>(s: Seq<char>, fid: FileID, r: Result<T, CompileError>) -> bool {
    match r {
        Err(CompileError::Lex(e)) => e.span.file_id == fid && e.span.start <= e.span.end
            <= s.len(),
        Err(CompileError::Parse(e)) => e.span.file_id == fid && e.span.start <= e.span.end
            <= s.len(),
        Ok(_) => true,
    }
}

/// Mismatch reports are honest. Whenever a result carries the
/// `UnmatchedTag` error: the two tag names really differ; the open-tag span
/// begins at a `<` token whose following word is the first name; the
/// close-tag span begins at a `</` token whose following word is the second
/// name; and the error's own span starts at the open tag, so the open tag,
/// the close tag and the whole element can all be underlined.
pub open spec fn unmatched_anchored<T>(
    s: Seq<char>,
    fid: FileID,
    r: Result<T, CompileError>,
) -> bool {
    match r {
        Err(CompileError::Parse(e)) => e.item matches ParseError::UnmatchedTag {
            start_tag,
            end_tag,
        } ==> {
            &&& start_tag.item@ != end_tag.item@
            &&& start_tag.span.file_id == fid
            &&& end_tag.span.file_id == fid
            &&& e.span.start == start_tag.span.start
            &&& (scan(s, start_tag.span.start as int) matches ScanOut::Tok {
                kind: TokenTypeV::Lesser,
                next: open_next,
                ..
            } && (scan(s, open_next) matches ScanOut::Tok {
                kind: TokenTypeV::Word,
                lo: open_lo,
                hi: open_hi,
                ..
            } && start_tag.item@ == s.subrange(open_lo, open_hi)))
            &&& (scan(s, end_tag.span.start as int) matches ScanOut::Tok {
                kind: TokenTypeV::LCloser,
                next: close_next,
                ..
            } && (scan(s, skip_ws(s, close_next)) matches ScanOut::Tok {
                kind: TokenTypeV::Word,
                lo: close_lo,
                hi: close_hi,
                ..
            } && end_tag.item@ == s.subrange(close_lo, close_hi)))
        },
        _ => true,
    }
}

/// Whether every element in the tree carries a well-formed property map.
pub open spec fn node_wf(n: Node) -> bool
    decreases n,
{
    match n {
        Node::Element(e) => e.props.wf() && forall|i: int|
            0 <= i < e.children@.len() ==> node_wf((#[trigger] e.children@[i]).item),
        _ => true,
    }
}

/// The node lies in the file `fid`, its span is ordered and contained in
/// `[lo, hi]`, and its property maps are well-formed.
pub open spec fn node_in(n: Spanned<Node>, fid: FileID, lo: int, hi: int) -> bool {
    &&& n.span.file_id == fid
    &&& lo <= n.span.start
    &&& n.span.start <= n.span.end
    &&& n.span.end <= hi
    &&& node_wf(n.item)
}

/// Consecutive nodes cover disjoint, ordered stretches of the source.
pub open spec fn nodes_ordered(nodes: Seq<Spanned<Node>>) -> bool {
    forall|k: int|
        0 <= k < nodes.len() - 1 ==> (#[trigger] nodes[k]).span.end <= nodes[k + 1].span.start
}

/// Every element in the tree is anchored in the source `s`: its node span
/// and its recorded open-tag span begin at a `<` token, its name is exactly
/// the word that follows that `<`, its property map is exactly what the
/// property-list loop reads after that word, a missing close-tag span
/// means the open tag really ended with a literal `/>`, and a close-tag
/// span points at the end of input, a fragment close, or a close tag whose
/// word is the element's own name.
pub open spec fn tree_anchored(s: Seq<char>, n: Spanned<Node>) -> bool
    decreases n,
{
    match n.item {
        Node::Element(e) => {
            &&& e.start_tag_span.start == n.span.start
            &&& (scan(s, n.span.start as int) matches ScanOut::Tok {
                kind: TokenTypeV::Lesser,
                next,
                ..
            } && (scan(s, next) matches ScanOut::Tok {
                kind: TokenTypeV::Word,
                lo: name_lo,
                hi: name_hi,
                next: name_next,
            } && e.name@ == s.subrange(name_lo, name_hi) && (props_run(
                s,
                skip_ws(s, name_next),
                Map::empty(),
                n.span.file_id,
            ) matches PropsRun::Done { props: m, next: _after } && e.props@ == m)))
            &&& (e.end_tag_span is None ==> 2 <= e.start_tag_span.end <= s.len() && s[
                e.start_tag_span.end - 2] == '/' && s[e.start_tag_span.end - 1] == '>')
            &&& (e.end_tag_span matches Some(es) ==> es.start == es.end || (es.start + 2 <= s.len()
                && s[es.start as int] == '<' && s[es.start as int + 1] == '/'))
            &&& (e.end_tag_span matches Some(es) ==> es.start == es.end || (scan(
                s,
                es.start as int,
            ) matches ScanOut::Tok { kind: close_kind, next: close_next, .. } && (close_kind
                == TokenTypeV::End || (close_kind == TokenTypeV::LCloser && (scan(
                s,
                skip_ws(s, close_next),
            ) matches ScanOut::Tok {
                kind: TokenTypeV::Word,
                lo: close_name_lo,
                hi: close_name_hi,
                ..
            } && s.subrange(close_name_lo, close_name_hi) == e.name@)))))
            &&& forall|i: int|
                0 <= i < e.children@.len() ==> tree_anchored(s, #[trigger] e.children@[i])
        },
        _ => true,
    }
}

/// A recursive-descent parser over one source buffer.
pub struct Parser {
    file_id: FileID,
    tokens: Lexer,
    /// Tag names whose content is treated as opaque text, not markup.
    pub raw_tags: Vec<String>,
}

impl Parser {
    /// The characters of the source buffer.
    pub closed spec fn src(&self) -> Seq<char> {
        self.tokens.src_chars()
    }

    /// The cursor of the underlying lexer.
    pub closed spec fn pos(&self) -> int {
        self.tokens.pos()
    }

    /// The file the buffer came from.
    pub closed spec fn file(&self) -> FileID {
        self.tokens.file()
    }

    /// The raw-tag names, as character sequences.
    pub closed spec fn raw_names(&self) -> Seq<Seq<char>> {
        self.raw_tags@.map_values(|s: String| s@)
    }

    /// The cursor is in bounds and the parser and lexer agree on the file.
    pub closed spec fn wf(&self) -> bool {
        self.tokens.wf() && self.file_id == self.tokens.file()
    }

    /// The parser `new_p` is `old_p` with the cursor moved forward, and
    /// nothing else changed.
    pub open spec fn advanced(old_p: Parser, new_p: Parser) -> bool {
        &&& new_p.src() == old_p.src()
        &&& new_p.file() == old_p.file()
        &&& new_p.raw_names() == old_p.raw_names()
        &&& new_p.wf()
        &&& old_p.pos() <= new_p.pos() <= new_p.src().len()
    }

    /// A parser with the given raw-tag names.
    pub fn make(input: &str, file_id: FileID, raw_tags: Vec<String>) -> (p: Parser)
        ensures
            p.wf(),
            p.src() == input@,
            p.pos() == 0,
            p.file() == file_id,
            p.raw_names() == raw_tags@.map_values(|t: String| t@),
    {
        Parser { file_id, tokens: Lexer::new(input, file_id), raw_tags }
    }

    /// A parser with the default raw tags: `pre`, `raw`, `script`, `style`.
    pub fn new(input: &str, file_id: FileID) -> (p: Parser)
        ensures
            p.wf(),
            p.src() == input@,
            p.pos() == 0,
            p.file() == file_id,
            p.raw_names() == seq!["pre"@, "raw"@, "script"@, "style"@],
    {
        let mut raw_tags: Vec<String> = Vec::new();
        raw_tags.push(String::from_str("pre"));
        raw_tags.push(String::from_str("raw"));
        raw_tags.push(String::from_str("script"));
        raw_tags.push(String::from_str("style"));
        let p = Parser { file_id, tokens: Lexer::new(input, file_id), raw_tags };
        proof {
            assert(p.raw_names() =~= seq!["pre"@, "raw"@, "script"@, "style"@]);
        }
        p
    }

    /// Whether `name` is one of the raw-tag names.
    fn raw_contains(&self, name: &String) -> (r: bool)
        ensures
            r == self.raw_names().contains(name@),
    {
        let name_chars = crate::chars::str_to_chars(name.as_str());
        let n: usize = self.raw_tags.len();
        let mut i: usize = 0;
        while i < n
            invariant
                i <= n == self.raw_tags@.len(),
                name_chars@ == name@,
                forall|j: int| 0 <= j < i ==> (#[trigger] self.raw_tags@[j])@ != name@,
            decreases n - i,
        {
            let entry_chars = crate::chars::str_to_chars(self.raw_tags[i].as_str());
            if crate::chars::chars_eq(&entry_chars, &name_chars) {
                proof {
                    assert(self.raw_names()[i as int] == self.raw_tags@[i as int]@);
                    assert(self.raw_names()[i as int] == name@);
                }
                return true;
            }
            i = i + 1;
        }
        proof {
            assert forall|j: int| 0 <= j < self.raw_names().len() implies self.raw_names()[j]
                != name@ by {
                assert(self.raw_names()[j] == self.raw_tags@[j]@);
            }
        }
        false
    }

    /// The source text a token's span covers.
    fn text(&self, token: &Token) -> (r: String)
        requires
            self.wf(),
            token.span.start <= token.span.end <= self.src().len(),
        ensures
            r@ == self.src().subrange(token.span.start as int, token.span.end as int),
    {
        chars_to_string(&self.tokens.text_of(token.span.start, token.span.end))
    }

    /// Peeks the current token.
    fn peek(&self) -> (r: Result<Token, CompileError>)
        requires
            self.wf(),
        ensures
            tok_obeys(scan(self.src(), self.pos()), self.file(), r),
            r matches Ok(t) ==> self.pos() <= t.span.start <= t.span.end <= self.src().len(),
            err_anchored(self.src(), self.file(), r),
    {
        proof {
            lemma_scan(self.src(), self.pos());
        }
        match self.tokens.peek() {
            Ok(t) => Ok(t),
            Err(e) => Err(CompileError::Lex(e)),
        }
    }

    /// Peeks the token after the current one.
    fn peek_next(&self) -> (r: Result<Token, CompileError>)
        requires
            self.wf(),
        ensures
            match scan(self.src(), self.pos()) {
                ScanOut::Tok { next, .. } => tok_obeys(scan(self.src(), next), self.file(), r),
                ScanOut::Fail { .. } => tok_obeys(scan(self.src(), self.pos()), self.file(), r),
            },
            err_anchored(self.src(), self.file(), r),
    {
        proof {
            lemma_scan(self.src(), self.pos());
            match scan(self.src(), self.pos()) {
                ScanOut::Tok { next, .. } => {
                    lemma_scan(self.src(), next);
                },
                ScanOut::Fail { .. } => {},
            }
        }
        match self.tokens.peek_next() {
            Ok(t) => Ok(t),
            Err(e) => Err(CompileError::Lex(e)),
        }
    }

    /// Consumes and returns the current token.
    fn next(&mut self) -> (r: Result<Token, CompileError>)
        requires
            old(self).wf(),
        ensures
            Self::advanced(*old(self), *final(self)),
            tok_obeys(scan(old(self).src(), old(self).pos()), old(self).file(), r),
            r matches Ok(t) ==> {
                &&& final(self).pos() == out_next(
                    scan(old(self).src(), old(self).pos()),
                    old(self).pos(),
                )
                &&& old(self).pos() <= t.span.start <= t.span.end <= final(self).pos()
                &&& (t.kind@ != TokenTypeV::Eof ==> old(self).pos() < final(self).pos())
            },
            r is Err ==> final(self).pos() == old(self).pos(),
            err_anchored(old(self).src(), old(self).file(), r),
    {
        proof {
            lemma_scan(self.src(), self.pos());
        }
        match self.tokens.next() {
            Ok(t) => Ok(t),
            Err(e) => Err(CompileError::Lex(e)),
        }
    }

    /// Peeks the current token; `None` at end of input.
    fn peek_opt(&self) -> (r: Result<Option<Token>, CompileError>)
        requires
            self.wf(),
        ensures
            match scan(self.src(), self.pos()) {
                ScanOut::Tok { kind, lo, hi, next } => {
                    if kind == TokenTypeV::Eof {
                        r matches Ok(None)
                    } else {
                        r matches Ok(Some(t)) && t.kind@ == kind && t.span.file_id == self.file()
                            && t.span.start == lo && t.span.end == hi && self.pos() <= lo <= hi
                            <= self.src().len()
                    }
                },
                ScanOut::Fail { err, lo, hi } => r matches Err(CompileError::Lex(e)) && e.item
                    == err && e.span.file_id == self.file() && e.span.start == lo && e.span.end
                    == hi,
            },
            err_anchored(self.src(), self.file(), r),
    {
        let t = match self.peek() {
            Ok(t) => t,
            Err(e) => {
                return Err(e);
            },
        };
        if t.is(&TokenType::Eof) {
            Ok(None)
        } else {
            Ok(Some(t))
        }
    }

    /// Peeks the current token, requiring that one is there: at end of input
    /// this is the `UnexpectedStreamEnd` parse error.
    fn peek_some(&self) -> (r: Result<Token, CompileError>)
        requires
            self.wf(),
        ensures
            match scan(self.src(), self.pos()) {
                ScanOut::Tok { kind, lo, hi, next } => {
                    if kind == TokenTypeV::Eof {
                        r matches Err(CompileError::Parse(e)) && e.item
                            == ParseError::UnexpectedStreamEnd && e.span.file_id == self.file()
                            && e.span.start == lo && e.span.end == hi
                    } else {
                        r matches Ok(t) && t.kind@ == kind && t.span.file_id == self.file()
                            && t.span.start == lo && t.span.end == hi && self.pos() <= lo <= hi
                            <= self.src().len()
                    }
                },
                ScanOut::Fail { err, lo, hi } => r matches Err(CompileError::Lex(e)) && e.item
                    == err && e.span.file_id == self.file() && e.span.start == lo && e.span.end
                    == hi,
            },
            err_anchored(self.src(), self.file(), r),
    {
        let peeked = match self.peek() {
            Ok(t) => t,
            Err(e) => {
                return Err(e);
            },
        };
        if !peeked.is_present() {
            return Err(
                CompileError::Parse(
                    Spanned { item: ParseError::UnexpectedStreamEnd, span: peeked.span },
                ),
            );
        }
        Ok(peeked)
    }

    /// Consumes tokens while they are insignificant, returning them.
    fn skip_unsignificant(&mut self) -> (r: Result<Vec<Token>, CompileError>)
        requires
            old(self).wf(),
        ensures
            Self::advanced(*old(self), *final(self)),
            final(self).pos() == skip_ws(old(self).src(), old(self).pos()),
            r matches Ok(_) ==> (scan(final(self).src(), final(self).pos())
                matches ScanOut::Tok { kind, .. } && (kind == TokenTypeV::Eof || !insignificant(
                kind,
            ))),
            r matches Err(e) ==> e matches CompileError::Lex(_) && scan(
                final(self).src(),
                final(self).pos(),
            ) matches ScanOut::Fail { .. },
            err_anchored(old(self).src(), old(self).file(), r),
    {
        let ghost s = self.src();
        let ghost p0 = self.pos();
        let mut buffer: Vec<Token> = Vec::new();
        loop
            invariant
                self.wf(),
                Self::advanced(*old(self), *self),
                s == self.src(),
                p0 == old(self).pos(),
                skip_ws(s, p0) == skip_ws(s, self.pos()),
            ensures
                self.wf(),
                Self::advanced(*old(self), *self),
                s == self.src(),
                skip_ws(s, p0) == self.pos(),
                scan(s, self.pos()) matches ScanOut::Tok { kind, .. } && (kind == TokenTypeV::Eof
                    || !insignificant(kind)),
            decreases s.len() - self.pos(),
        {
            proof {
                lemma_scan(s, self.pos());
            }
            let t = match self.peek() {
                Ok(t) => t,
                Err(e) => {
                    proof {
                        match scan(s, self.pos()) {
                            ScanOut::Tok { .. } => {
                                assert(false);
                            },
                            ScanOut::Fail { .. } => {
                                assert(skip_ws(s, self.pos()) == self.pos());
                            },
                        }
                    }
                    return Err(e);
                },
            };
            if t.is_significant() {
                proof {
                    assert(skip_ws(s, self.pos()) == self.pos());
                }
                break;
            }
            if !t.is_present() {
                proof {
                    assert(skip_ws(s, self.pos()) == self.pos());
                }
                break;
            }
            let consumed = match self.next() {
                Ok(t) => t,
                Err(e) => {
                    proof {
                        match scan(s, self.pos()) {
                            ScanOut::Tok { .. } => {
                                assert(false);
                            },
                            ScanOut::Fail { .. } => {
                                assert(skip_ws(s, self.pos()) == self.pos());
                            },
                        }
                    }
                    return Err(e);
                },
            };
            buffer.push(consumed);
        }
        Ok(buffer)
    }

    /// Consumes tokens up to and including the next significant one, and
    /// returns it.
    fn next_significant(&mut self) -> (r: Result<Token, CompileError>)
        requires
            old(self).wf(),
        ensures
            Self::advanced(*old(self), *final(self)),
            r matches Ok(t) ==> tok_obeys(
                scan(old(self).src(), skip_ws(old(self).src(), old(self).pos())),
                old(self).file(),
                r,
            ),
            r matches Ok(t) ==> final(self).pos() == out_next(
                scan(old(self).src(), skip_ws(old(self).src(), old(self).pos())),
                skip_ws(old(self).src(), old(self).pos()),
            ),
            scan(old(self).src(), skip_ws(old(self).src(), old(self).pos()))
                matches ScanOut::Tok { .. } ==> r is Ok,
            err_anchored(old(self).src(), old(self).file(), r),
    {
        match self.skip_unsignificant() {
            Ok(_) => {},
            Err(e) => {
                return Err(e);
            },
        }
        self.next()
    }

    /// Consumes and returns the current token, requiring that one is there.
    fn expect_next(&mut self) -> (r: Result<Token, CompileError>)
        requires
            old(self).wf(),
        ensures
            Self::advanced(*old(self), *final(self)),
            r matches Ok(t) ==> (scan(old(self).src(), old(self).pos())
                matches ScanOut::Tok { kind, lo, hi, next } && kind != TokenTypeV::Eof && t.kind@
                == kind && t.span.file_id == old(self).file() && t.span.start == lo && t.span.end
                == hi && final(self).pos() == next && old(self).pos() < next),
            err_anchored(old(self).src(), old(self).file(), r),
    {
        let token = match self.peek_some() {
            Ok(t) => t,
            Err(e) => {
                return Err(e);
            },
        };
        match self.next() {
            Ok(_) => {},
            Err(e) => {
                return Err(e);
            },
        }
        Ok(token)
    }

    /// Checks that `token` has the expected kind; `InvalidToken` otherwise.
    fn check_valid(&self, expected: TokenType, token: Token) -> (r: Result<(), CompileError>)
        ensures
            token.kind@ == expected@ ==> r is Ok,
            token.kind@ != expected@ ==> (r matches Err(CompileError::Parse(e)) && e.item
                matches ParseError::InvalidToken(ex, got) && ex@ == expected@ && got@ == token.kind@
                && e.span == token.span),
    {
        if token.is(&expected) {
            return Ok(());
        }
        let span = token.span;
        Err(
            CompileError::Parse(
                Spanned { item: ParseError::InvalidToken(expected, token.kind), span },
            ),
        )
    }

    /// Peeks the current token and checks its kind, without consuming it.
    fn expect(&self, expected: &TokenType) -> (r: Result<Token, CompileError>)
        requires
            self.wf(),
        ensures
            match scan(self.src(), self.pos()) {
                ScanOut::Tok { kind, lo, hi, next } => {
                    if kind == TokenTypeV::Eof {
                        r matches Err(CompileError::Parse(e)) && e.item
                            == ParseError::UnexpectedStreamEnd && e.span.file_id == self.file()
                            && e.span.start == lo && e.span.end == hi
                    } else if kind == expected@ {
                        r matches Ok(t) && t.kind@ == kind && t.span.file_id == self.file()
                            && t.span.start == lo && t.span.end == hi && self.pos() <= lo <= hi
                            <= self.src().len()
                    } else {
                        r matches Err(CompileError::Parse(e)) && e.item
                            matches ParseError::InvalidToken(ex, got) && ex@ == expected@ && got@
                            == kind && e.span.file_id == self.file() && e.span.start == lo
                            && e.span.end == hi
                    }
                },
                ScanOut::Fail { err, lo, hi } => r matches Err(CompileError::Lex(e)) && e.item
                    == err,
            },
            err_anchored(self.src(), self.file(), r),
    {
        let token = match self.peek_some() {
            Ok(t) => t,
            Err(e) => {
                return Err(e);
            },
        };
        match self.check_valid(clone_token_type(expected), clone_token(&token)) {
            Ok(_) => {},
            Err(e) => {
                return Err(e);
            },
        }
        Ok(token)
    }

    /// Peeks the current token; `Some` when it has the expected kind.
    fn is_expected(&self, expected: &TokenType) -> (r: Result<Option<Token>, CompileError>)
        requires
            self.wf(),
        ensures
            match scan(self.src(), self.pos()) {
                ScanOut::Tok { kind, lo, hi, next } => {
                    if kind == expected@ {
                        r matches Ok(Some(t)) && t.kind@ == kind
                    } else {
                        r matches Ok(None)
                    }
                },
                ScanOut::Fail { .. } => r is Err,
            },
    {
        let token = match self.peek() {
            Ok(t) => t,
            Err(e) => {
                return Err(e);
            },
        };
        if token.is(expected) {
            return Ok(Some(token));
        }
        Ok(None)
    }

    /// Consumes the current token, which must have the expected kind.
    fn consume(&mut self, expected: &TokenType) -> (r: Result<Token, CompileError>)
        requires
            old(self).wf(),
        ensures
            Self::advanced(*old(self), *final(self)),
            match scan(old(self).src(), old(self).pos()) {
                ScanOut::Tok { kind, lo, hi, next } => {
                    if kind == TokenTypeV::Eof {
                        r matches Err(CompileError::Parse(e)) && e.item
                            == ParseError::UnexpectedStreamEnd && e.span.file_id == old(
                            self,
                        ).file() && e.span.start == lo && e.span.end == hi
                    } else if kind == expected@ {
                        r matches Ok(t) && t.kind@ == kind && t.span.file_id == old(self).file()
                            && t.span.start == lo && t.span.end == hi && final(self).pos() == next
                            && old(self).pos() < next
                    } else {
                        r matches Err(CompileError::Parse(e)) && e.item
                            matches ParseError::InvalidToken(ex, got) && ex@ == expected@ && got@
                            == kind && e.span.file_id == old(self).file() && e.span.start == lo
                            && e.span.end == hi
                    }
                },
                ScanOut::Fail { err, lo, hi } => r matches Err(CompileError::Lex(e)) && e.item
                    == err,
            },
            r is Err ==> final(self).pos() == old(self).pos(),
            err_anchored(old(self).src(), old(self).file(), r),
    {
        let token = match self.expect(expected) {
            Ok(t) => t,
            Err(e) => {
                return Err(e);
            },
        };
        match self.next() {
            Ok(_) => {},
            Err(e) => {
                return Err(e);
            },
        }
        Ok(token)
    }

    /// Consumes a `Word` token and returns its source text.
    fn consume_word(&mut self) -> (r: Result<String, CompileError>)
        requires
            old(self).wf(),
        ensures
            Self::advanced(*old(self), *final(self)),
            match scan(old(self).src(), old(self).pos()) {
                ScanOut::Tok { kind, lo, hi, next } => {
                    if kind == TokenTypeV::Word {
                        r matches Ok(w) && w@ == old(self).src().subrange(lo, hi)
                            && final(self).pos() == next && old(self).pos() < next
                    } else if kind == TokenTypeV::Eof {
                        r matches Err(CompileError::Parse(e)) && e.item
                            == ParseError::UnexpectedStreamEnd && e.span.file_id == old(
                            self,
                        ).file() && e.span.start == lo && e.span.end == hi
                    } else {
                        r matches Err(CompileError::Parse(e)) && e.item
                            matches ParseError::InvalidToken(ex, got) && ex@ == TokenTypeV::Word
                            && got@ == kind && e.span.file_id == old(self).file() && e.span.start
                            == lo && e.span.end == hi
                    }
                },
                ScanOut::Fail { .. } => r matches Err(CompileError::Lex(_)),
            },
            r is Err ==> final(self).pos() == old(self).pos(),
            err_anchored(old(self).src(), old(self).file(), r),
            unmatched_anchored(old(self).src(), old(self).file(), r),
    {
        let token = match self.consume(&TokenType::Word) {
            Ok(t) => t,
            Err(e) => {
                return Err(e);
            },
        };
        Ok(self.text(&token))
    }

    /// Reads an `Int` token's text as a 64-bit integer. A literal that
    /// denotes no integer, or one outside the range, is an `Unspecified`
    /// parse error at the token's span.
    fn parse_int(&self, token: &Token) -> (r: Result<Value, CompileError>)
        requires
            self.wf(),
            token.span.start <= token.span.end <= self.src().len(),
            token.span.file_id == self.file(),
        ensures
            err_anchored(self.src(), self.file(), r),
            match spec_parse_int(
                self.src().subrange(token.span.start as int, token.span.end as int),
            ) {
                Some(n) => {
                    if i64::MIN <= n <= i64::MAX {
                        r matches Ok(v) && v matches Value::Int(x) && x == n
                    } else {
                        r matches Err(CompileError::Parse(e)) && e.item
                            matches ParseError::Unspecified(_) && e.span == token.span
                    }
                },
                None => r matches Err(CompileError::Parse(e)) && e.item
                    matches ParseError::Unspecified(_) && e.span == token.span,
            },
    {
        let chars = self.tokens.text_of(token.span.start, token.span.end);
        match parse_int_chars(&chars) {
            Some(v) => Ok(Value::Int(v)),
            None => Err(
                CompileError::Parse(
                    Spanned {
                        item: ParseError::Unspecified(
                            String::from_str("integer literal out of range or malformed"),
                        ),
                        span: token.span,
                    },
                ),
            ),
        }
    }

    /// Reads a `Float` token's text, keeping its cleaned literal text.
    fn parse_float(&self, token: &Token) -> (r: Value)
        requires
            self.wf(),
            token.span.start <= token.span.end <= self.src().len(),
        ensures
            r matches Value::Float(t) && t@ == strip_underscores(
                self.src().subrange(token.span.start as int, token.span.end as int),
            ),
    {
        let chars = self.tokens.text_of(token.span.start, token.span.end);
        let cleaned = strip_underscores_chars(&chars);
        Value::Float(chars_to_string(&cleaned))
    }

    /// Reads a literal value token: a number, a string, a boolean or null.
    /// Any other kind is an `UnexpectedToken` parse error.
    fn parse_value(&self, token: &Token) -> (r: Result<Spanned<Value>, CompileError>)
        requires
            self.wf(),
            token.span.start <= token.span.end <= self.src().len(),
            token.span.file_id == self.file(),
        ensures
            err_anchored(self.src(), self.file(), r),
            r matches Ok(v) ==> v.span == token.span,
            match token.kind@ {
                TokenTypeV::False => r matches Ok(v) && v.item == Value::Bool(false),
                TokenTypeV::True => r matches Ok(v) && v.item == Value::Bool(true),
                TokenTypeV::Null => r matches Ok(v) && v.item == Value::Null,
                TokenTypeV::Float => r matches Ok(v) && v.item matches Value::Float(t) && t@
                    == strip_underscores(
                    self.src().subrange(token.span.start as int, token.span.end as int),
                ),
                TokenTypeV::Int => (match spec_parse_int(
                    self.src().subrange(token.span.start as int, token.span.end as int),
                ) {
                    Some(n) => {
                        if i64::MIN <= n <= i64::MAX {
                            r matches Ok(v) && v.item matches Value::Int(x) && x == n
                        } else {
                            r matches Err(CompileError::Parse(e)) && e.item
                                matches ParseError::Unspecified(_)
                        }
                    },
                    None => r matches Err(CompileError::Parse(e)) && e.item
                        matches ParseError::Unspecified(_),
                }),
                TokenTypeV::Str(content) => r matches Ok(v) && v.item matches Value::String(st)
                    && st@ == content,
                _ => r matches Err(CompileError::Parse(e)) && e.item
                    matches ParseError::UnexpectedToken(_) && e.span == token.span,
            },
    {
        let value = match &token.kind {
            TokenType::False => Value::Bool(false),
            TokenType::True => Value::Bool(true),
            TokenType::Null => Value::Null,
            TokenType::Float => self.parse_float(token),
            TokenType::Int => match self.parse_int(token) {
                Ok(v) => v,
                Err(e) => {
                    return Err(e);
                },
            },
            TokenType::Str(txt) => Value::String(chars_to_string(txt)),
            _ => {
                return Err(
                    CompileError::Parse(
                        Spanned {
                            item: ParseError::UnexpectedToken(clone_token_type(&token.kind)),
                            span: token.span,
                        },
                    ),
                );
            },
        };
        Ok(Spanned { item: value, span: token.span })
    }

    /// Accumulates raw text character by character, bypassing tokenization,
    /// until a literal `<` or the end of input: the body of a raw tag.
    pub fn parse_raw_text(&mut self) -> (r: Result<Spanned<Node>, CompileError>)
        requires
            old(self).wf(),
        ensures
            Self::advanced(*old(self), *final(self)),
            final(self).pos() == raw_end(old(self).src(), old(self).pos()),
            r matches Ok(n) && n.item matches Node::Text(t) && t@ == old(self).src().subrange(
                old(self).pos(),
                raw_end(old(self).src(), old(self).pos()),
            ),
            r matches Ok(n) && n.span.file_id == old(self).file() && n.span.start == old(
                self,
            ).pos() && n.span.end == final(self).pos(),
    {
        proof {
            lemma_raw_end(self.src(), self.pos());
        }
        let ghost s = self.src();
        let ghost p0 = self.pos();
        let start_index = self.tokens.cursor();
        loop
            invariant
                self.wf(),
                Self::advanced(*old(self), *self),
                s == self.src(),
                p0 == old(self).pos(),
                raw_end(s, p0) == raw_end(s, self.pos()),
            ensures
                self.wf(),
                Self::advanced(*old(self), *self),
                self.pos() == raw_end(s, p0),
            decreases s.len() - self.pos(),
        {
            let c = match self.tokens.peek_char() {
                None => {
                    break;
                },
                Some(c) => c,
            };
            if c == '<' {
                break;
            }
            let _advanced_char = self.tokens.advance();
        }
        let end_index = self.tokens.cursor();
        let text = chars_to_string(&self.tokens.text_of(start_index, end_index));
        Ok(
            Spanned {
                item: Node::Text(text),
                span: Span { file_id: self.file_id, start: start_index, end: end_index },
            },
        )
    }

    /// Accumulates the source text of consecutive tokens into one text node,
    /// skipping comments, until a delimiter or the end of input; the result
    /// is trimmed of leading and trailing whitespace, and its span covers
    /// the untrimmed run.
    pub fn parse_text(&mut self) -> (r: Result<Spanned<Node>, CompileError>)
        requires
            old(self).wf(),
        ensures
            Self::advanced(*old(self), *final(self)),
            err_anchored(old(self).src(), old(self).file(), r),
            match scan(old(self).src(), old(self).pos()) {
                ScanOut::Fail { .. } => r matches Err(CompileError::Lex(_)),
                ScanOut::Tok { kind: k0, lo: lo0, hi: hi0, next: n0 } => match text_run(
                    old(self).src(),
                    old(self).pos(),
                    hi0,
                ) {
                    TextRun::Run { text, last_hi, next } => {
                        &&& r matches Ok(n)
                        &&& final(self).pos() == next
                        &&& n.span.file_id == old(self).file()
                        &&& n.span.start == lo0
                        &&& n.span.end == last_hi
                        &&& n.item matches Node::Text(t) && t@ == spec_trim(text)
                    },
                    TextRun::Failed { .. } => r matches Err(CompileError::Lex(_)),
                },
            },
    {
        let ghost s = self.src();
        let ghost p0 = self.pos();
        proof {
            lemma_scan(s, p0);
        }
        let start_tok = match self.peek() {
            Ok(t) => t,
            Err(e) => {
                return Err(e);
            },
        };
        let start_span = start_tok.span;
        let ghost hi0 = start_tok.span.end as int;
        let mut end_hi: usize = start_tok.span.end;
        let mut buffer: Vec<char> = Vec::new();
        proof {
            match text_run(s, p0, hi0) {
                TextRun::Run { text, .. } => {
                    assert(buffer@.add(text) =~= text);
                },
                _ => {},
            }
        }
        loop
            invariant_except_break
                text_run(s, p0, hi0) == (match text_run(s, self.pos(), end_hi as int) {
                    TextRun::Run { text, last_hi, next } => TextRun::Run {
                        text: buffer@.add(text),
                        last_hi,
                        next,
                    },
                    f => f,
                }),
            invariant
                self.wf(),
                Self::advanced(*old(self), *self),
                s == self.src(),
                p0 == old(self).pos(),
                (match scan(s, p0) {
                    ScanOut::Tok { hi, .. } => hi0 == hi,
                    ScanOut::Fail { .. } => false,
                }),
                end_hi <= s.len(),
            ensures
                self.wf(),
                Self::advanced(*old(self), *self),
                text_run(s, p0, hi0) == (TextRun::Run {
                    text: buffer@,
                    last_hi: end_hi as int,
                    next: self.pos(),
                }),
            decreases s.len() - self.pos(),
        {
            proof {
                lemma_scan(s, self.pos());
            }
            let token = match self.peek_opt() {
                Ok(Some(t)) => t,
                Ok(None) => {
                    proof {
                        assert(buffer@.add(Seq::<char>::empty()) =~= buffer@);
                    }
                    break;
                },
                Err(e) => {
                    return Err(e);
                },
            };
            if token.is(&TokenType::Comment) {
                let adv = match self.next() {
                    Ok(t) => t,
                    Err(e) => {
                        return Err(e);
                    },
                };
                end_hi = adv.span.end;
                continue;
            }
            let mut piece = self.tokens.text_of(token.span.start, token.span.end);
            let ghost b_old = buffer@;
            let ghost piece_chars = piece@;
            match self.next() {
                Ok(_) => {},
                Err(e) => {
                    return Err(e);
                },
            }
            end_hi = token.span.end;
            buffer.append(&mut piece);
            proof {
                match text_run(s, self.pos(), end_hi as int) {
                    TextRun::Run { text, .. } => {
                        assert(b_old.add(piece_chars.add(text)) =~= buffer@.add(text));
                    },
                    _ => {},
                }
                assert(b_old.add(piece_chars) =~= buffer@);
            }
            let after = match self.peek() {
                Ok(t) => t,
                Err(e) => {
                    return Err(e);
                },
            };
            if after.is(&TokenType::Lesser) || after.is(&TokenType::End) || after.is(
                &TokenType::LCloser,
            ) {
                break;
            }
        }
        let trimmed = trim_chars(&buffer);
        let text_str = chars_to_string(&trimmed);
        Ok(
            Spanned {
                item: Node::Text(text_str),
                span: Span { file_id: self.file_id, start: start_span.start, end: end_hi },
            },
        )
    }

    /// Parses the properties of an open tag: words, each optionally followed
    /// by `=` and a literal value; a bare word is recorded as `true`. Stops
    /// before `>`, `/>` or the end of input.
    #[verifier::rlimit(50)]
    fn parse_props(&mut self) -> (r: Result<PropMap, CompileError>)
        requires
            old(self).wf(),
        ensures
            Self::advanced(*old(self), *final(self)),
            r matches Ok(props) ==> props.wf() && (scan(final(self).src(), final(self).pos())
                matches ScanOut::Tok { kind, .. } && (kind == TokenTypeV::Eof || kind
                == TokenTypeV::Greater || kind == TokenTypeV::RCloser)),
            r matches Ok(props) ==> (props_run(
                old(self).src(),
                old(self).pos(),
                Map::empty(),
                old(self).file(),
            ) matches PropsRun::Done { props: m, next } && props@ == m && final(self).pos()
                == next),
            r is Err ==> props_run(
                old(self).src(),
                old(self).pos(),
                Map::empty(),
                old(self).file(),
            ) matches PropsRun::Failed,
            unmatched_anchored(old(self).src(), old(self).file(), r),
            err_anchored(old(self).src(), old(self).file(), r),
    {
        let ghost s = self.src();
        let ghost p0 = self.pos();
        let ghost fid = self.file();
        let mut props = PropMap::new();
        loop
            invariant
                self.wf(),
                Self::advanced(*old(self), *self),
                s == self.src(),
                p0 == old(self).pos(),
                fid == self.file(),
                props.wf(),
                props_run(s, p0, Map::empty(), fid) == props_run(s, self.pos(), props@, fid),
            ensures
                self.wf(),
                Self::advanced(*old(self), *self),
                props.wf(),
                props_run(s, p0, Map::empty(), fid) == (PropsRun::Done {
                    props: props@,
                    next: self.pos(),
                }),
                scan(self.src(), self.pos()) matches ScanOut::Tok { kind, .. } && (kind
                    == TokenTypeV::Eof || kind == TokenTypeV::Greater || kind
                    == TokenTypeV::RCloser),
            decreases self.src().len() - self.pos(),
        {
            match self.peek_opt() {
                Ok(None) => {
                    break;
                },
                Ok(Some(_)) => {},
                Err(e) => {
                    return Err(e);
                },
            }
            match self.skip_unsignificant() {
                Ok(_) => {},
                Err(e) => {
                    return Err(e);
                },
            }
            let token = match self.peek() {
                Ok(t) => t,
                Err(e) => {
                    return Err(e);
                },
            };
            if token.is(&TokenType::RCloser) {
                break;
            }
            if token.is(&TokenType::Greater) {
                break;
            }
            let prop_name = match self.consume_word() {
                Ok(w) => w,
                Err(e) => {
                    return Err(e);
                },
            };
            match self.skip_unsignificant() {
                Ok(_) => {},
                Err(e) => {
                    return Err(e);
                },
            }
            let sign = match self.peek() {
                Ok(t) => t,
                Err(e) => {
                    return Err(e);
                },
            };
            if sign.isnt(&TokenType::Equal) {
                props.insert(prop_name, Spanned { item: Value::Bool(true), span: sign.span });
                continue;
            }
            match self.next() {
                Ok(_) => {},
                Err(e) => {
                    return Err(e);
                },
            }
            match self.skip_unsignificant() {
                Ok(_) => {},
                Err(e) => {
                    return Err(e);
                },
            }
            let value_token = match self.peek() {
                Ok(t) => t,
                Err(e) => {
                    return Err(e);
                },
            };
            let value = match self.parse_value(&value_token) {
                Ok(v) => v,
                Err(e) => {
                    return Err(e);
                },
            };
            match self.next() {
                Ok(_) => {},
                Err(e) => {
                    return Err(e);
                },
            }
            props.insert(prop_name, value);
        }
        Ok(props)
    }

    /// Parses expressions until a close tag, a fragment close or the end of
    /// input. Empty text nodes are dropped.
    fn parse_content(&mut self, raw: bool) -> (r: Result<Vec<Spanned<Node>>, CompileError>)
        requires
            old(self).wf(),
        ensures
            Self::advanced(*old(self), *final(self)),
            r matches Ok(nodes) ==> {
                &&& forall|k: int|
                    0 <= k < nodes@.len() ==> node_in(
                        #[trigger] nodes@[k],
                        old(self).file(),
                        old(self).pos(),
                        final(self).pos(),
                    )
                &&& forall|k: int|
                    0 <= k < nodes@.len() ==> tree_anchored(old(self).src(), #[trigger] nodes@[k])
                &&& nodes_ordered(nodes@)
                &&& (scan(final(self).src(), final(self).pos()) matches ScanOut::Tok { kind, .. }
                    && (kind == TokenTypeV::Eof || kind == TokenTypeV::End || kind
                    == TokenTypeV::LCloser))
                &&& forall|k: int|
                    0 <= k < nodes@.len() ==> ((#[trigger] nodes@[k]).item matches Node::Text(t)
                        ==> t@.len() > 0)
            },
            (scan(old(self).src(), old(self).pos()) matches ScanOut::Tok { kind, .. } && (kind
                == TokenTypeV::Eof || kind == TokenTypeV::End || kind == TokenTypeV::LCloser))
                ==> (r matches Ok(nodes) && nodes@.len() == 0 && final(self).pos() == old(
                self,
            ).pos()),
            (match scan(old(self).src(), old(self).pos()) {
                ScanOut::Tok { kind, .. } => (kind != TokenTypeV::Eof && kind != TokenTypeV::End
                    && kind != TokenTypeV::LCloser && kind != TokenTypeV::Space && kind
                    != TokenTypeV::NewLine) ==> (r matches Ok(nodes) ==> nodes@.len() > 0),
                ScanOut::Fail { .. } => true,
            }),
            (r matches Ok(nodes) && nodes@.len() == 0) ==> (scan(
                old(self).src(),
                skip_ws(old(self).src(), old(self).pos()),
            ) matches ScanOut::Tok { kind, .. } && (kind == TokenTypeV::Eof || kind
                == TokenTypeV::End || kind == TokenTypeV::LCloser)),
            unmatched_anchored(old(self).src(), old(self).file(), r),
            err_anchored(old(self).src(), old(self).file(), r),
        decreases self.src().len() - self.pos(), 3int,
    {
        let mut children: Vec<Spanned<Node>> = Vec::new();
        loop
            invariant
                self.wf(),
                Self::advanced(*old(self), *self),
                forall|k: int|
                    0 <= k < children@.len() ==> node_in(
                        #[trigger] children@[k],
                        old(self).file(),
                        old(self).pos(),
                        self.pos(),
                    ),
                forall|k: int|
                    0 <= k < children@.len() ==> tree_anchored(
                        old(self).src(),
                        #[trigger] children@[k],
                    ),
                nodes_ordered(children@),
                forall|k: int|
                    0 <= k < children@.len() ==> (#[trigger] children@[k]).span.end <= self.pos(),
                forall|k: int|
                    0 <= k < children@.len() ==> ((#[trigger] children@[k]).item
                        matches Node::Text(t) ==> t@.len() > 0),
                (scan(self.src(), old(self).pos()) matches ScanOut::Tok { kind, .. } && (kind
                    == TokenTypeV::Eof || kind == TokenTypeV::End || kind == TokenTypeV::LCloser))
                    ==> (self.pos() == old(self).pos() && children@.len() == 0),
                (match scan(self.src(), old(self).pos()) {
                    ScanOut::Tok { kind, .. } => (kind != TokenTypeV::Eof && kind
                        != TokenTypeV::End && kind != TokenTypeV::LCloser && kind
                        != TokenTypeV::Space && kind != TokenTypeV::NewLine) ==> (self.pos()
                        > old(self).pos() ==> children@.len() > 0),
                    ScanOut::Fail { .. } => true,
                }),
                children@.len() == 0 ==> skip_ws(self.src(), old(self).pos()) == skip_ws(
                    self.src(),
                    self.pos(),
                ),
            ensures
                self.wf(),
                Self::advanced(*old(self), *self),
                forall|k: int|
                    0 <= k < children@.len() ==> node_in(
                        #[trigger] children@[k],
                        old(self).file(),
                        old(self).pos(),
                        self.pos(),
                    ),
                forall|k: int|
                    0 <= k < children@.len() ==> tree_anchored(
                        old(self).src(),
                        #[trigger] children@[k],
                    ),
                nodes_ordered(children@),
                forall|k: int|
                    0 <= k < children@.len() ==> ((#[trigger] children@[k]).item
                        matches Node::Text(t) ==> t@.len() > 0),
                (scan(self.src(), old(self).pos()) matches ScanOut::Tok { kind, .. } && (kind
                    == TokenTypeV::Eof || kind == TokenTypeV::End || kind == TokenTypeV::LCloser))
                    ==> (self.pos() == old(self).pos() && children@.len() == 0),
                (match scan(self.src(), old(self).pos()) {
                    ScanOut::Tok { kind, .. } => (kind != TokenTypeV::Eof && kind
                        != TokenTypeV::End && kind != TokenTypeV::LCloser && kind
                        != TokenTypeV::Space && kind != TokenTypeV::NewLine) ==> (self.pos()
                        > old(self).pos() ==> children@.len() > 0),
                    ScanOut::Fail { .. } => true,
                }),
                children@.len() == 0 ==> skip_ws(self.src(), old(self).pos()) == skip_ws(
                    self.src(),
                    self.pos(),
                ),
                scan(self.src(), self.pos()) matches ScanOut::Tok { kind, .. } && (kind
                    == TokenTypeV::Eof || kind == TokenTypeV::End || kind == TokenTypeV::LCloser),
            decreases self.src().len() - self.pos(),
        {
            let token = match self.peek_opt() {
                Ok(None) => {
                    break;
                },
                Ok(Some(t)) => t,
                Err(e) => {
                    return Err(e);
                },
            };
            if token.is(&TokenType::End) {
                break;
            }
            if token.is(&TokenType::LCloser) {
                break;
            }
            let ghost p_before = self.pos();
            let parsed = match self.parse_expr(raw) {
                Ok(n) => n,
                Err(e) => {
                    return Err(e);
                },
            };
            let is_empty = match &parsed.item {
                Node::Text(t) => t.as_str().is_empty(),
                _ => false,
            };
            if !is_empty {
                children.push(parsed);
            }
        }
        proof {
            if children@.len() == 0 {
                assert(skip_ws(self.src(), self.pos()) == self.pos());
            }
        }
        Ok(children)
    }

    /// Parses one expression: an element at `<`, a comment node, or a run
    /// of text (raw or plain).
    fn parse_expr(&mut self, raw: bool) -> (r: Result<Spanned<Node>, CompileError>)
        requires
            old(self).wf(),
            scan(old(self).src(), old(self).pos()) matches ScanOut::Tok { kind, .. } && kind
                != TokenTypeV::Eof && kind != TokenTypeV::End && kind != TokenTypeV::LCloser,
        ensures
            Self::advanced(*old(self), *final(self)),
            r matches Ok(n) ==> old(self).pos() < final(self).pos() && node_in(
                n,
                old(self).file(),
                old(self).pos(),
                final(self).pos(),
            ) && tree_anchored(old(self).src(), n),
            unmatched_anchored(old(self).src(), old(self).file(), r),
            err_anchored(old(self).src(), old(self).file(), r),
            (match scan(old(self).src(), old(self).pos()) {
                ScanOut::Tok { kind: TokenTypeV::Comment, lo, hi, next } => r matches Ok(n)
                    && n.item matches Node::Comment(t) && t@ == old(self).src().subrange(lo, hi)
                    && n.span.file_id == old(self).file() && n.span.start == lo && n.span.end == hi
                    && final(self).pos() == next,
                _ => true,
            }),
            (match scan(old(self).src(), old(self).pos()) {
                ScanOut::Tok { kind, lo, hi, next } => (kind != TokenTypeV::Lesser && kind
                    != TokenTypeV::Comment) ==> (if raw {
                    r is Ok
                } else {
                    (text_run(old(self).src(), old(self).pos(), hi) matches TextRun::Run { .. })
                        ==> r is Ok
                }),
                ScanOut::Fail { .. } => true,
            }),
            (match scan(old(self).src(), old(self).pos()) {
                ScanOut::Tok { kind: TokenTypeV::Lesser, next, .. } => (scan(
                    old(self).src(),
                    next,
                ) matches ScanOut::Tok { kind: TokenTypeV::Word, .. }) ==> (r matches Ok(n)
                    ==> n.item matches Node::Element(_)),
                _ => true,
            }),
            (match scan(old(self).src(), old(self).pos()) {
                ScanOut::Tok { kind, .. } => (kind != TokenTypeV::Space && kind
                    != TokenTypeV::NewLine) ==> (r matches Ok(n) ==> !(n.item matches Node::Text(t)
                    && t@.len() == 0)),
                ScanOut::Fail { .. } => true,
            }),
            (r matches Ok(n) && n.item matches Node::Text(t) && t@.len() == 0) ==> skip_ws(
                old(self).src(),
                old(self).pos(),
            ) == skip_ws(old(self).src(), final(self).pos()),
        decreases self.src().len() - self.pos(), 2int,
    {
        proof {
            lemma_scan(self.src(), self.pos());
            crate::scan::lemma_scan_nonws(self.src(), self.pos());
        }
        let peeked = match self.peek() {
            Ok(t) => t,
            Err(e) => {
                return Err(e);
            },
        };
        if peeked.is(&TokenType::Lesser) {
            return self.parse_element();
        }
        if peeked.is(&TokenType::Comment) {
            let text = self.text(&peeked);
            match self.next() {
                Ok(_) => {},
                Err(e) => {
                    return Err(e);
                },
            }
            return Ok(Spanned { item: Node::Comment(text), span: peeked.span });
        }
        if raw {
            proof {
                let s = self.src();
                let p = self.pos();
                if s[p] == '<' {
                    crate::scan::lemma_scan_lesser(s, p);
                }
                assert(s[p] != '<');
                lemma_raw_end(s, p + 1);
                assert(raw_end(s, p) == raw_end(s, p + 1));
            }
            self.parse_raw_text()
        } else {
            proof {
                match scan(self.src(), self.pos()) {
                    ScanOut::Tok { lo, hi, .. } => {
                        lemma_text_run(self.src(), self.pos(), hi);
                        lemma_text_run_first(self.src(), self.pos(), hi);
                        lemma_text_run_ws(self.src(), self.pos(), hi);
                        match text_run(self.src(), self.pos(), hi) {
                            TextRun::Run { text, .. } => {
                                if text.len() > 0 && !crate::text::is_edge_ws(text[0]) {
                                    crate::text::lemma_trim_keeps(text);
                                }
                            },
                            TextRun::Failed { .. } => {},
                        }
                    },
                    ScanOut::Fail { .. } => {},
                }
            }
            self.parse_text()
        }
    }

    /// Parses an element at a `<` token: tag name, properties, children and
    /// close tag. A `<` not followed by a word becomes a literal text node.
    /// A close tag whose name differs from the open tag's is the
    /// `UnmatchedTag` error.
    fn parse_element(&mut self) -> (r: Result<Spanned<Node>, CompileError>)
        requires
            old(self).wf(),
            scan(old(self).src(), old(self).pos()) matches ScanOut::Tok {
                kind: TokenTypeV::Lesser,
                ..
            },
        ensures
            Self::advanced(*old(self), *final(self)),
            r matches Ok(n) ==> old(self).pos() < final(self).pos() && node_in(
                n,
                old(self).file(),
                old(self).pos(),
                final(self).pos(),
            ) && tree_anchored(old(self).src(), n),
            unmatched_anchored(old(self).src(), old(self).file(), r),
            err_anchored(old(self).src(), old(self).file(), r),
            r matches Ok(n) ==> n.span.end == final(self).pos(),
            (match scan(old(self).src(), old(self).pos()) {
                ScanOut::Tok { next, .. } => (scan(old(self).src(), next) matches ScanOut::Tok {
                    kind: k2,
                    ..
                } && k2 != TokenTypeV::Word) ==> (r matches Ok(n) && final(self).pos() == next),
                ScanOut::Fail { .. } => true,
            }),
            r matches Ok(n) ==> (match scan(old(self).src(), old(self).pos()) {
                ScanOut::Tok { kind: _, lo, hi, next } => match n.item {
                    Node::Text(t) => t@ == old(self).src().subrange(lo, hi) && n.span.start == lo
                        && n.span.end == hi && !(scan(old(self).src(), next)
                        matches ScanOut::Tok { kind: TokenTypeV::Word, .. }),
                    Node::Element(e) => {
                        &&& n.span.start == lo
                        &&& e.start_tag_span.start == lo
                        &&& e.start_tag_span.file_id == old(self).file()
                        &&& (scan(old(self).src(), next) matches ScanOut::Tok {
                            kind: TokenTypeV::Word,
                            lo: name_lo,
                            hi: name_hi,
                            ..
                        } && e.name@ == old(self).src().subrange(name_lo, name_hi))
                    },
                    Node::Comment(_) => false,
                },
                ScanOut::Fail { .. } => false,
            }),
        decreases self.src().len() - self.pos(), 1int,
    {
        proof {
            lemma_scan(self.src(), self.pos());
            crate::scan::lemma_scan_token_end(self.src(), self.pos());
        }
        let next_tok = match self.peek_next() {
            Ok(t) => t,
            Err(e) => {
                return Err(e);
            },
        };
        let next_is_word = next_tok.is(&TokenType::Word);
        if !next_is_word {
            // A bare `<` with no tag name after it: literal text.
            let token = match self.next() {
                Ok(t) => t,
                Err(e) => {
                    return Err(e);
                },
            };
            let text = self.text(&token);
            return Ok(Spanned { item: Node::Text(text), span: token.span });
        }
        let start = match self.next() {
            Ok(t) => t,
            Err(e) => {
                return Err(e);
            },
        };
        let tag_name = match self.consume_word() {
            Ok(w) => w,
            Err(e) => {
                return Err(e);
            },
        };
        let parse_raw = self.raw_contains(&tag_name);
        match self.skip_unsignificant() {
            Ok(_) => {},
            Err(e) => {
                return Err(e);
            },
        }
        let after_name = match self.peek() {
            Ok(t) => t,
            Err(e) => {
                return Err(e);
            },
        };
        if after_name.is(&TokenType::RCloser) {
            proof {
                crate::scan::lemma_scan_rcloser(self.src(), self.pos());
            }
            let end = match self.next() {
                Ok(t) => t,
                Err(e) => {
                    return Err(e);
                },
            };
            let span = start.span.combine(end.span);
            let element = Element {
                name: tag_name,
                props: PropMap::new(),
                children: Vec::new(),
                start_tag_span: span,
                end_tag_span: None,
            };
            return Ok(Spanned { item: Node::Element(element), span });
        }
        let props = match self.parse_props() {
            Ok(p) => p,
            Err(e) => {
                return Err(e);
            },
        };
        let after_props = match self.peek() {
            Ok(t) => t,
            Err(e) => {
                return Err(e);
            },
        };
        if after_props.is(&TokenType::RCloser) {
            proof {
                crate::scan::lemma_scan_rcloser(self.src(), self.pos());
            }
            let end = match self.next() {
                Ok(t) => t,
                Err(e) => {
                    return Err(e);
                },
            };
            let span = start.span.combine(end.span);
            let element = Element {
                name: tag_name,
                props,
                children: Vec::new(),
                start_tag_span: span,
                end_tag_span: None,
            };
            return Ok(Spanned { item: Node::Element(element), span });
        }
        let gt = match self.next() {
            Ok(t) => t,
            Err(e) => {
                return Err(e);
            },
        };
        let start_tag_span = start.span.combine(gt.span);
        let children = match self.parse_content(parse_raw) {
            Ok(c) => c,
            Err(e) => {
                return Err(e);
            },
        };
        proof {
            crate::scan::lemma_scan_token_end(self.src(), self.pos());
            match scan(self.src(), self.pos()) {
                ScanOut::Tok { kind, .. } => {
                    if kind == TokenTypeV::LCloser || kind == TokenTypeV::End {
                        crate::scan::lemma_scan_closer(self.src(), self.pos());
                    }
                },
                ScanOut::Fail { .. } => {},
            }
        }
        let end_start = match self.next() {
            Ok(t) => t,
            Err(e) => {
                return Err(e);
            },
        };
        if end_start.is(&TokenType::LCloser) {
            match self.skip_unsignificant() {
                Ok(_) => {},
                Err(e) => {
                    return Err(e);
                },
            }
            let end_tagname = match self.consume_word() {
                Ok(w) => w,
                Err(e) => {
                    return Err(e);
                },
            };
            match self.skip_unsignificant() {
                Ok(_) => {},
                Err(e) => {
                    return Err(e);
                },
            }
            proof {
                crate::scan::lemma_scan_token_end(self.src(), self.pos());
            }
            let end = match self.consume(&TokenType::Greater) {
                Ok(t) => t,
                Err(e) => {
                    return Err(e);
                },
            };
            let end_tag_span = end_start.span.combine(end.span);
            if end_tagname != tag_name {
                let error = ParseError::UnmatchedTag {
                    start_tag: Spanned { item: tag_name, span: start_tag_span },
                    end_tag: Spanned { item: end_tagname, span: end_tag_span },
                };
                return Err(
                    CompileError::Parse(
                        Spanned { item: error, span: start.span.combine(end.span) },
                    ),
                );
            }
            let element = Element {
                name: tag_name,
                props,
                children,
                start_tag_span,
                end_tag_span: Some(end_tag_span),
            };
            return Ok(
                Spanned { item: Node::Element(element), span: start.span.combine(end.span) },
            );
        }
        let span = start.span.combine(end_start.span);
        let element = Element {
            name: tag_name,
            props,
            children,
            start_tag_span,
            end_tag_span: Some(end_start.span),
        };
        Ok(Spanned { item: Node::Element(element), span })
    }

    /// Parses a whole document: its top-level content, until the end of
    /// input. On success the nodes stand in source order: their spans are
    /// ordered, disjoint and contained in the input.
    pub fn parse(input: &str, file_id: FileID) -> (r: Result<Vec<Spanned<Node>>, CompileError>)
        ensures
            r matches Ok(nodes) ==> {
                &&& forall|k: int|
                    0 <= k < nodes@.len() ==> node_in(
                        #[trigger] nodes@[k],
                        file_id,
                        0,
                        input@.len() as int,
                    )
                &&& forall|k: int|
                    0 <= k < nodes@.len() ==> tree_anchored(input@, #[trigger] nodes@[k])
                &&& nodes_ordered(nodes@)
                &&& forall|k: int|
                    0 <= k < nodes@.len() ==> ((#[trigger] nodes@[k]).item matches Node::Text(t)
                        ==> t@.len() > 0)
                &&& exists|endpos: int|
                    {
                        &&& 0 <= endpos <= input@.len()
                        &&& (#[trigger] scan(input@, endpos) matches ScanOut::Tok { kind, .. } && (
                        kind == TokenTypeV::Eof || kind == TokenTypeV::End || kind
                            == TokenTypeV::LCloser))
                        &&& forall|k: int|
                            0 <= k < nodes@.len() ==> (#[trigger] nodes@[k]).span.end <= endpos
                    }
            },
            (scan(input@, 0) matches ScanOut::Tok { kind, .. } && (kind == TokenTypeV::Eof || kind
                == TokenTypeV::End || kind == TokenTypeV::LCloser)) ==> (r matches Ok(nodes)
                && nodes@.len() == 0),
            (match scan(input@, 0) {
                ScanOut::Tok { kind, .. } => (kind != TokenTypeV::Eof && kind != TokenTypeV::End
                    && kind != TokenTypeV::LCloser && kind != TokenTypeV::Space && kind
                    != TokenTypeV::NewLine) ==> (r matches Ok(nodes) ==> nodes@.len() > 0),
                ScanOut::Fail { .. } => true,
            }),
            (r matches Ok(nodes) && nodes@.len() == 0) ==> (scan(input@, skip_ws(input@, 0))
                matches ScanOut::Tok { kind, .. } && (kind == TokenTypeV::Eof || kind
                == TokenTypeV::End || kind == TokenTypeV::LCloser)),
            unmatched_anchored(input@, file_id, r),
            err_anchored(input@, file_id, r),
    {
        let mut parser = Parser::new(input, file_id);
        let r = parser.parse_content(false);
        proof {
            match r {
                Ok(_) => {
                    let endpos = parser.pos();
                    assert(0 <= endpos <= input@.len());
                },
                Err(_) => {},
            }
        }
        r
    }
}

} // verus!
