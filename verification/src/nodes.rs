//! The syntax tree the parser builds: nodes, elements and property values.

use vstd::prelude::*;

use crate::props::PropMap;
use crate::spans::Span;
use crate::spans::Spanned;

verus! {

/// The value of an element property.
#[derive(Clone, Debug)]
pub enum Value {
    Int(i64),
    /// A float literal's cleaned text (underscores stripped); computing the
    /// numeric value is left to the consumer of the tree.
    Float(String),
    String(String),
    Null,
    Bool(bool),
    /// Marker for property slots whose value is itself an element; reserved,
    /// never constructed by this parser.
    Element,
}

/// The mathematical image of a `Value`: strings as character sequences.
pub enum ValueV {
    Int(int),
    Float(Seq<char>),
    String(Seq<char>),
    Null,
    Bool(bool),
    Element,
}

impl View for Value {
    type V = ValueV;

    open spec fn view(&self) -> ValueV {
        match self {
            Value::Int(i) => ValueV::Int(*i as int),
            Value::Float(t) => ValueV::Float(t@),
            Value::String(s) => ValueV::String(s@),
            Value::Null => ValueV::Null,
            Value::Bool(b) => ValueV::Bool(*b),
            Value::Element => ValueV::Element,
        }
    }
}

/// A markup element: its tag name, its properties, its children in source
/// order, and the spans of its tags. `end_tag_span` is `None` for
/// self-closing elements.
#[derive(Debug)]
pub struct Element {
    pub name: String,
    pub props: PropMap,
    pub children: Vec<Spanned<Node>>,
    pub start_tag_span: Span,
    pub end_tag_span: Option<Span>,
}

/// One node of the tree.
#[derive(Debug)]
pub enum Node {
    Text(String),
    Comment(String),
    Element(Element),
}

} // verus!
