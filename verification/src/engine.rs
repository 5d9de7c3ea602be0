//! Engine backends and their declared capabilities.
//!
//! The harness never implements XML processing itself: it only records which
//! backend is active and what that backend declares it can do, and decides
//! dependency satisfaction from those declarations.

use vstd::prelude::*;
use crate::strutil::{is_ws_char, matches_at};

verus! {

/// The available engine backends.
#[derive(Debug, Clone, Copy, PartialEq, Eq, Structural)]
pub enum Backend {
    /// XPath 3.1 and partial XSLT 3.0.
    Xee,
    /// XPath and XSLT near 1.0.
    Xrust,
    /// XPath 3.1, XQuery 3.1 and XSD 1.1.
    Xust,
}

/// XPath versions an engine may declare.
#[derive(Debug, Clone, Copy, PartialEq, Eq, Structural)]
pub enum XPathVersion {
    V1_0,
    V2_0,
    V3_0,
    V3_1,
}

/// XQuery versions an engine may declare.
#[derive(Debug, Clone, Copy, PartialEq, Eq, Structural)]
pub enum XQueryVersion {
    V1_0,
    V3_0,
    V3_1,
}

/// XSLT versions an engine may declare.
#[derive(Debug, Clone, Copy, PartialEq, Eq, Structural)]
pub enum XsltVersion {
    V1_0,
    V2_0,
    V3_0,
}

/// XSD versions an engine may declare.
#[derive(Debug, Clone, Copy, PartialEq, Eq, Structural)]
pub enum XsdVersion {
    V1_0,
    V1_1,
}

/// What an engine declares: the specification tokens it supports and the
/// features it does not.
#[derive(Debug)]
pub struct EngineCapabilities {
    /// The backend these declarations belong to.
    pub backend: Backend,
    /// Specification version tokens the engine supports, `XP31` and the like.
    pub spec_tokens: Vec<String>,
    /// Features the engine declares unsupported.
    pub unsupported_features: Vec<String>,
}

/// A character that separates specification tokens in a dependency value.
pub open spec fn is_token_delim(c: char) -> bool {
    is_ws_char(c) || c == '|'
}

/// Whether `token` occurs in `value` as one whole delimiter-separated token.
pub open spec fn has_token(value: Seq<char>, token: Seq<char>) -> bool {
    token.len() > 0 && exists|at: int|
        matches_at(value, token, at) && (at == 0 || is_token_delim(value[at - 1])) && (at
            + token.len() == value.len() || is_token_delim(value[at + token.len()]))
}

/// Decide whether `token` stands as a whole token in `value`.
pub fn value_has_token(value: &str, token: &str) -> (r: bool)
    ensures
        r == has_token(value@, token@),
{
    let nv: usize = value.unicode_len();
    let nt: usize = token.unicode_len();
    if nt == 0 || nt > nv {
        proof {
            assert(!has_token(value@, token@));
        }
        return false;
    }
    let mut at: usize = 0;
    while at <= nv - nt
        invariant
            0 < nt <= nv,
            nv == value@.len(),
            nt == token@.len(),
            at <= nv - nt + 1,
            forall|k: int|
                0 <= k < at ==> !(matches_at(value@, token@, k) && (k == 0 || is_token_delim(
                    value@[k - 1],
                )) && (k + token@.len() == value@.len() || is_token_delim(
                    value@[k + token@.len()],
                ))),
        decreases nv - nt + 1 - at,
    {
        let mut j: usize = 0;
        let mut hit: bool = true;
        while j < nt
            invariant
                at + nt <= nv,
                nv == value@.len(),
                nt == token@.len(),
                j <= nt,
                hit ==> forall|k: int| 0 <= k < j ==> value@[at + k] == token@[k],
                !hit ==> !matches_at(value@, token@, at as int),
            decreases nt - j,
        {
            if value.get_char(at + j) != token.get_char(j) {
                proof {
                    assert(value@.subrange(at as int, at + nt) != token@) by {
                        assert(value@.subrange(at as int, at + nt)[j as int] != token@[j as int]);
                    }
                }
                hit = false;
                j = nt;
            } else {
                j = j + 1;
            }
        }
        if hit {
            proof {
                assert(value@.subrange(at as int, at + nt) =~= token@);
                assert(matches_at(value@, token@, at as int));
            }
            let left_ok: bool = at == 0 || {
                let c = value.get_char(at - 1);
                crate::strutil::is_whitespace_char(c) || c == '|'
            };
            let right_ok: bool = at + nt == nv || {
                let c = value.get_char(at + nt);
                crate::strutil::is_whitespace_char(c) || c == '|'
            };
            if left_ok && right_ok {
                return true;
            }
        }
        at = at + 1;
    }
    proof {
        assert forall|k: int|
            #[trigger] matches_at(value@, token@, k) && (k == 0 || is_token_delim(value@[k - 1]))
                && (k + token@.len() == value@.len() || is_token_delim(
                value@[k + token@.len()],
            )) implies false by {
            assert(0 <= k < at);
        }
    }
    false
}

/// The views of the strings in a vector.
pub open spec fn views_of(v: Seq<String>) -> Seq<Seq<char>> {
    v.map_values(|s: String| s@)
}

/// Whether some whole token of `value` is among the capability tokens.
pub open spec fn any_token_supported(tokens: Seq<String>, value: Seq<char>) -> bool {
    exists|k: int| 0 <= k < tokens.len() && has_token(value, tokens[k]@)
}

/// Whether `value` equals one of the strings in `list`.
pub open spec fn list_has(list: Seq<String>, value: Seq<char>) -> bool {
    exists|k: int| 0 <= k < list.len() && list[k]@ == value
}

/// Decide whether some whole token of `value` is a supported token.
pub fn any_supported_token(tokens: &Vec<String>, value: &str) -> (r: bool)
    ensures
        r == any_token_supported(tokens@, value@),
{
    let n: usize = tokens.len();
    let mut k: usize = 0;
    while k < n
        invariant
            k <= n,
            n == tokens@.len(),
            forall|j: int| 0 <= j < k ==> !has_token(value@, tokens@[j]@),
        decreases n - k,
    {
        if value_has_token(value, tokens[k].as_str()) {
            return true;
        }
        k = k + 1;
    }
    false
}

/// Decide whether `value` equals one of the strings in `list`.
pub fn list_contains(list: &Vec<String>, value: &str) -> (r: bool)
    ensures
        r == list_has(list@, value@),
{
    let n: usize = list.len();
    let mut k: usize = 0;
    while k < n
        invariant
            k <= n,
            n == list@.len(),
            forall|j: int| 0 <= j < k ==> list@[j]@ != value@,
        decreases n - k,
    {
        if crate::strutil::str_eq(list[k].as_str(), value) {
            return true;
        }
        k = k + 1;
    }
    false
}

/// The specification tokens each backend declares.
pub open spec fn backend_tokens_spec(b: Backend) -> Seq<Seq<char>> {
    match b {
        Backend::Xee => seq!["XP31"@, "XP30"@, "XP20"@, "XP10"@],
        Backend::Xrust => seq!["XP10"@, "XP20"@],
        Backend::Xust => seq!["XQ31"@, "XQ30"@, "XP31"@, "XP30"@],
    }
}

/// The features no backend supports yet.
pub open spec fn unsupported_features_spec() -> Seq<Seq<char>> {
    seq![
        "serialization"@,
        "schema-import"@,
        "schema-validation"@,
        "static-typing"@,
        "module"@,
        "collection-stability"@,
        "directory-as-collection-uri"@,
        "higherOrderFunctions"@,
    ]
}

/// The declared capability set of a backend.
pub fn capabilities_for(backend: Backend) -> (r: EngineCapabilities)
    ensures
        r.backend == backend,
        views_of(r.spec_tokens@) == backend_tokens_spec(backend),
        views_of(r.unsupported_features@) == unsupported_features_spec(),
{
    let mut spec_tokens: Vec<String> = Vec::new();
    match backend {
        Backend::Xee => {
            spec_tokens.push("XP31".to_owned());
            spec_tokens.push("XP30".to_owned());
            spec_tokens.push("XP20".to_owned());
            spec_tokens.push("XP10".to_owned());
        },
        Backend::Xrust => {
            spec_tokens.push("XP10".to_owned());
            spec_tokens.push("XP20".to_owned());
        },
        Backend::Xust => {
            spec_tokens.push("XQ31".to_owned());
            spec_tokens.push("XQ30".to_owned());
            spec_tokens.push("XP31".to_owned());
            spec_tokens.push("XP30".to_owned());
        },
    }
    let mut unsupported_features: Vec<String> = Vec::new();
    unsupported_features.push("serialization".to_owned());
    unsupported_features.push("schema-import".to_owned());
    unsupported_features.push("schema-validation".to_owned());
    unsupported_features.push("static-typing".to_owned());
    unsupported_features.push("module".to_owned());
    unsupported_features.push("collection-stability".to_owned());
    unsupported_features.push("directory-as-collection-uri".to_owned());
    unsupported_features.push("higherOrderFunctions".to_owned());
    proof {
        assert(views_of(spec_tokens@) =~= backend_tokens_spec(backend));
        assert(views_of(unsupported_features@) =~= unsupported_features_spec());
    }
    EngineCapabilities { backend, spec_tokens, unsupported_features }
}

} // verus!

verus! {

/// The unified error type of the engine capability interface: what an
/// engine implementation reports for each operation it performs.
#[derive(Debug, Clone)]
pub enum Error {
    /// XML parsing failed.
    XmlParse(String),
    /// XPath compilation failed.
    XPathCompile(String),
    /// XPath evaluation failed.
    XPathEval(String),
    /// XSLT compilation failed.
    XsltCompile(String),
    /// XSLT transformation failed.
    XsltTransform(String),
    /// XQuery compilation failed.
    XQueryCompile(String),
    /// XQuery evaluation failed.
    XQueryEval(String),
    /// The requested engine is not supported.
    EngineNotSupported(String),
    /// The requested feature is not supported by this engine.
    FeatureNotSupported(String),
    /// A test catalog could not be read or parsed.
    TestCatalog(String),
    /// A value could not be converted between type systems.
    TypeConversion(String),
    /// A node could not be accessed.
    NodeAccess(String),
    /// The evaluation context is invalid.
    Context(String),
    /// Reading a file failed.
    Io(String),
    /// Any other failure.
    Other(String),
}

impl Error {
    /// An XPath compilation error carrying this message.
    pub fn xpath_compile(msg: &str) -> (r: Error)
        ensures
            r matches Error::XPathCompile(m) && m@ == msg@,
    {
        Error::XPathCompile(msg.to_owned())
    }

    /// An XPath evaluation error carrying this message.
    pub fn xpath_eval(msg: &str) -> (r: Error)
        ensures
            r matches Error::XPathEval(m) && m@ == msg@,
    {
        Error::XPathEval(msg.to_owned())
    }

    /// An XSLT compilation error carrying this message.
    pub fn xslt_compile(msg: &str) -> (r: Error)
        ensures
            r matches Error::XsltCompile(m) && m@ == msg@,
    {
        Error::XsltCompile(msg.to_owned())
    }

    /// An XSLT transformation error carrying this message.
    pub fn xslt_transform(msg: &str) -> (r: Error)
        ensures
            r matches Error::XsltTransform(m) && m@ == msg@,
    {
        Error::XsltTransform(msg.to_owned())
    }

    /// An XQuery compilation error carrying this message.
    pub fn xquery_compile(msg: &str) -> (r: Error)
        ensures
            r matches Error::XQueryCompile(m) && m@ == msg@,
    {
        Error::XQueryCompile(msg.to_owned())
    }

    /// An XQuery evaluation error carrying this message.
    pub fn xquery_eval(msg: &str) -> (r: Error)
        ensures
            r matches Error::XQueryEval(m) && m@ == msg@,
    {
        Error::XQueryEval(msg.to_owned())
    }
}

} // verus!
