//! A verified harness for W3C-style XML conformance test suites.
//!
//! The crate parses declarative test catalogs, resolves per-test execution
//! environments, checks engine-capability dependencies, judges engine output
//! against a recursive assertion tree, and aggregates outcomes into a
//! compliance report.  The XML engines themselves are outside collaborators;
//! this library holds the logic that drives and judges them.

pub mod assertion;
pub mod engine;
pub mod environment;
pub mod error;
pub mod items;
pub mod outcome;
pub mod qt3;
pub mod reporter;
pub mod strutil;
pub mod xml;
pub mod xsd;
pub mod xslt30;
