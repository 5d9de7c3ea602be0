//! Plain-value models of what an engine hands back: items of a result
//! sequence and the outcome of a schema validation.

use vstd::prelude::*;
use crate::strutil::dec_spec;
use crate::strutil::u64_to_dec;
use crate::error::prefixed;

verus! {

/// XML node kinds.
#[derive(Debug, Clone, Copy, PartialEq, Eq, Structural)]
pub enum NodeType {
    Document,
    Element,
    Attribute,
    Text,
    Comment,
    ProcessingInstruction,
    Namespace,
}

/// What the harness keeps of an XML node in a result sequence.
#[derive(Debug, Clone)]
pub struct NodeInfo {
    pub node_type: NodeType,
    pub name: Option<String>,
    pub value: Option<String>,
}

/// A single item of a query result, as plain values.  Numbers that the
/// engine computed in floating point arrive here already rendered to text.
#[derive(Debug, Clone)]
pub enum ResultItem {
    Node(NodeInfo),
    Str(String),
    Integer(i64),
    Double(String),
    Boolean(bool),
    Date(String),
    DateTime(String),
    Duration(String),
    QName(String),
    Empty,
}

/// The decimal rendering of a signed integer.
pub open spec fn int_dec_spec(n: int) -> Seq<char> {
    if n < 0 {
        "-"@ + dec_spec((-n) as nat)
    } else {
        dec_spec(n as nat)
    }
}

/// The string form of each result item.
pub open spec fn item_string_spec(item: ResultItem) -> Seq<char> {
    match item {
        ResultItem::Node(info) => match info.value {
            Some(v) => v@,
            None => Seq::empty(),
        },
        ResultItem::Str(s) => s@,
        ResultItem::Integer(i) => int_dec_spec(i as int),
        ResultItem::Double(s) => s@,
        ResultItem::Boolean(b) => if b {
            "true"@
        } else {
            "false"@
        },
        ResultItem::Date(s) => s@,
        ResultItem::DateTime(s) => s@,
        ResultItem::Duration(s) => s@,
        ResultItem::QName(s) => s@,
        ResultItem::Empty => Seq::empty(),
    }
}

/// The decimal rendering of `n`.
pub fn i64_to_dec(n: i64) -> (r: String)
    ensures
        r@ == int_dec_spec(n as int),
{
    if n < 0 {
        let mag: u64 = if n == i64::MIN {
            9223372036854775808u64
        } else {
            (-n) as u64
        };
        proof {
            assert(mag as nat == (-(n as int)) as nat);
        }
        let digits = u64_to_dec(mag);
        prefixed("-", &digits)
    } else {
        u64_to_dec(n as u64)
    }
}

impl ResultItem {
    /// The string form of this item.
    pub fn as_string(&self) -> (r: String)
        ensures
            r@ == item_string_spec(*self),
    {
        match self {
            ResultItem::Node(info) => match &info.value {
                Some(v) => v.clone(),
                None => String::new(),
            },
            ResultItem::Str(s) => s.clone(),
            ResultItem::Integer(i) => i64_to_dec(*i),
            ResultItem::Double(s) => s.clone(),
            ResultItem::Boolean(b) => if *b {
                "true".to_owned()
            } else {
                "false".to_owned()
            },
            ResultItem::Date(s) => s.clone(),
            ResultItem::DateTime(s) => s.clone(),
            ResultItem::Duration(s) => s.clone(),
            ResultItem::QName(s) => s.clone(),
            ResultItem::Empty => String::new(),
        }
    }
}

/// A query result: its items and the engine's own string rendering of the
/// whole sequence.
#[derive(Debug, Clone)]
pub struct ResultSequence {
    /// The items of the sequence, in order.
    pub items: Vec<ResultItem>,
    /// The string form of the whole sequence.
    pub text: String,
}

impl ResultSequence {
    /// The number of items.
    pub fn count(&self) -> (r: usize)
        ensures
            r == self.items@.len(),
    {
        self.items.len()
    }

    /// Whether the sequence holds no item.
    pub fn is_empty(&self) -> (r: bool)
        ensures
            r == (self.items@.len() == 0),
    {
        self.items.len() == 0
    }

    /// The engine's string rendering of the sequence.
    pub fn as_string(&self) -> (r: String)
        ensures
            r@ == self.text@,
    {
        self.text.clone()
    }
}

/// One error found by schema validation.
#[derive(Debug, Clone)]
pub struct ValidationError {
    pub message: String,
    pub line: Option<usize>,
    pub column: Option<usize>,
}

/// The outcome of validating a document against a schema.
#[derive(Debug, Clone)]
pub struct ValidationResult {
    pub valid: bool,
    pub errors: Vec<ValidationError>,
}

impl ValidationResult {
    /// A successful validation.
    pub fn valid() -> (r: ValidationResult)
        ensures
            r.valid,
            r.errors@.len() == 0,
    {
        ValidationResult { valid: true, errors: Vec::new() }
    }

    /// A failed validation carrying its errors.
    pub fn invalid(errors: Vec<ValidationError>) -> (r: ValidationResult)
        ensures
            !r.valid,
            r.errors == errors,
    {
        ValidationResult { valid: false, errors }
    }
}

} // verus!
