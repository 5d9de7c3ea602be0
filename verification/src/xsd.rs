//! The XSD (schema-test) catalog dialect: suites of test groups, each with a
//! schema test and instance tests, and the judgment of validation outcomes.

use vstd::prelude::*;
use crate::error::{Error, error_msg_spec};
use crate::outcome::{Judgment, TestOutcome};
use crate::strutil::{join_path_spec, lower_spec, trim_spec};
use crate::xml::{
    attr_trim, attr_trimmed, element_descendants, element_descendants_spec, first_named,
    first_named_child, text_trim, text_trimmed, XmlElement,
};

verus! {

/// A parsed XSD test suite: references to its test-set files.
#[derive(Debug)]
pub struct TestSuite {
    pub name: String,
    pub test_set_refs: Vec<TestSetRef>,
}

/// A reference to one test-set file.
#[derive(Debug, Clone)]
pub struct TestSetRef {
    pub href: String,
}

/// A test set: groups of schema and instance tests.
#[derive(Debug)]
pub struct TestSet {
    pub name: String,
    pub contributor: String,
    pub test_groups: Vec<TestGroup>,
}

/// A group: at most one schema test, and the instance tests that depend on
/// its schema.
#[derive(Debug)]
pub struct TestGroup {
    pub name: String,
    pub title: String,
    pub description: String,
    pub schema_test: Option<SchemaTest>,
    pub instance_tests: Vec<InstanceTest>,
}

/// A test that validates a schema document itself.
#[derive(Debug)]
pub struct SchemaTest {
    pub name: String,
    pub schema_document: String,
    pub expected_validity: Validity,
}

/// A test that validates an instance document against the group's schema.
#[derive(Debug)]
pub struct InstanceTest {
    pub name: String,
    pub instance_document: String,
    pub expected_validity: Validity,
}

/// The validity a test expects.
#[derive(Debug, Clone, Copy, PartialEq, Eq, Structural)]
pub enum Validity {
    Valid,
    Invalid,
    Indeterminate,
}

/// How a validity attribute reads: `valid` and `invalid` in any ASCII case,
/// anything else indeterminate.
pub open spec fn validity_of(s: Seq<char>) -> Validity {
    if lower_spec(s) == "valid"@ {
        Validity::Valid
    } else if lower_spec(s) == "invalid"@ {
        Validity::Invalid
    } else {
        Validity::Indeterminate
    }
}

impl Validity {
    /// Read a validity attribute.
    pub fn from_str(s: &str) -> (r: Validity)
        ensures
            r == validity_of(s@),
    {
        let lowered = crate::strutil::ascii_lower(s);
        if crate::strutil::str_eq(lowered.as_str(), "valid") {
            Validity::Valid
        } else if crate::strutil::str_eq(lowered.as_str(), "invalid") {
            Validity::Invalid
        } else {
            Validity::Indeterminate
        }
    }

    /// The display name of this validity.
    pub fn as_str(&self) -> (r: &str)
        ensures
            r@ == validity_str(*self),
    {
        match self {
            Validity::Valid => "Valid",
            Validity::Invalid => "Invalid",
            Validity::Indeterminate => "Indeterminate",
        }
    }
}

/// The display name of a validity, as the reports print it.
pub open spec fn validity_str(v: Validity) -> Seq<char> {
    match v {
        Validity::Valid => "Valid"@,
        Validity::Invalid => "Invalid"@,
        Validity::Indeterminate => "Indeterminate"@,
    }
}

/// The `testSetRef` elements kept by the suite parser: those with an `href`.
pub open spec fn kept_hrefs_upto(cs: Seq<XmlElement>, i: int) -> Seq<XmlElement>
    decreases i,
{
    if i <= 0 {
        Seq::empty()
    } else {
        kept_hrefs_upto(cs, i - 1) + (if attr_trim(cs[i - 1], "href"@).len() > 0 {
            seq![cs[i - 1]]
        } else {
            Seq::empty()
        })
    }
}

/// How a suite document reads as a [`TestSuite`]: the root's name, and one
/// reference per `testSetRef` descendant with an `href`, in document order.
pub open spec fn suite_read_from(doc: XmlElement, r: TestSuite) -> bool {
    let refs = element_descendants_spec(doc, "testSetRef"@);
    &&& r.name@ == attr_trim(doc, "name"@)
    &&& r.test_set_refs@.len() == kept_hrefs_upto(refs, refs.len() as int).len()
    &&& (forall|k: int|
        0 <= k < r.test_set_refs@.len() ==> (#[trigger] r.test_set_refs@[k]).href@ == attr_trim(
            kept_hrefs_upto(refs, refs.len() as int)[k],
            "href"@,
        ))
}

/// Read an XSD suite document: its name and the `testSetRef` hrefs, in order.
#[verifier::loop_isolation(false)]
pub fn parse_suite(doc: &XmlElement) -> (r: TestSuite)
    ensures
        suite_read_from(*doc, r),
{
    let name = attr_trimmed(doc, "name");
    let refs = element_descendants(doc, "testSetRef");
    let ghost refs_spec = element_descendants_spec(*doc, "testSetRef"@);
    let mut test_set_refs: Vec<TestSetRef> = Vec::new();
    let n: usize = refs.len();
    let mut i: usize = 0;
    while i < n
        invariant
            i <= n,
            test_set_refs@.len() == kept_hrefs_upto(refs_spec, i as int).len(),
            forall|k: int|
                0 <= k < test_set_refs@.len() ==> (#[trigger] test_set_refs@[k]).href@
                    == attr_trim(kept_hrefs_upto(refs_spec, i as int)[k], "href"@),
        decreases n - i,
    {
        let ghost kept_before = kept_hrefs_upto(refs_spec, i as int);
        let href = attr_trimmed(refs[i], "href");
        if href.unicode_len() > 0 {
            proof {
                assert(kept_hrefs_upto(refs_spec, i + 1) =~= kept_before.push(
                    refs_spec[i as int],
                ));
            }
            test_set_refs.push(TestSetRef { href });
        } else {
            proof {
                assert(kept_hrefs_upto(refs_spec, i + 1) =~= kept_before);
            }
        }
        i = i + 1;
    }
    TestSuite { name, test_set_refs }
}

/// How a `schemaTest` element reads: its name, its first schema document's
/// href resolved against the test set's directory, and the expected validity.
pub open spec fn schema_test_parses(e: XmlElement, base: Seq<char>, t: SchemaTest) -> bool {
    &&& t.name@ == attr_trim(e, "name"@)
    &&& (first_named(e, "schemaDocument"@) matches Some(d) && t.schema_document@ == join_path_spec(
        base,
        attr_trim(d, "href"@),
    ))
    &&& t.expected_validity == (match first_named(e, "expected"@) {
        Some(x) => validity_of(attr_trim(x, "validity"@)),
        None => Validity::Indeterminate,
    })
}

/// How an `instanceTest` element reads.
pub open spec fn instance_test_parses(e: XmlElement, base: Seq<char>, t: InstanceTest) -> bool {
    &&& t.name@ == attr_trim(e, "name"@)
    &&& (first_named(e, "instanceDocument"@) matches Some(d) && t.instance_document@
        == join_path_spec(base, attr_trim(d, "href"@)))
    &&& t.expected_validity == (match first_named(e, "expected"@) {
        Some(x) => validity_of(attr_trim(x, "validity"@)),
        None => Validity::Indeterminate,
    })
}

/// The `instanceTest` elements kept by the parser: a name and a document.
pub open spec fn kept_instances_upto(cs: Seq<XmlElement>, i: int) -> Seq<XmlElement>
    decreases i,
{
    if i <= 0 {
        Seq::empty()
    } else {
        kept_instances_upto(cs, i - 1) + (if attr_trim(cs[i - 1], "name"@).len() > 0
            && (first_named(cs[i - 1], "instanceDocument"@) matches Some(d) && attr_trim(
            d,
            "href"@,
        ).len() > 0) {
            seq![cs[i - 1]]
        } else {
            Seq::empty()
        })
    }
}

/// How a `testGroup` element reads: its name, the first title and
/// description anywhere below it, the schema test where one names a schema
/// document, and the usable instance tests in order.
#[verifier::opaque]
pub open spec fn group_parses(e: XmlElement, base: Seq<char>, g: TestGroup) -> bool {
    let insts = element_descendants_spec(e, "instanceTest"@);
    let kept = kept_instances_upto(insts, insts.len() as int);
    &&& g.name@ == attr_trim(e, "name"@)
    &&& g.title@ == (if element_descendants_spec(e, "Title"@).len() == 0 {
        Seq::<char>::empty()
    } else {
        trim_spec(text_trim(element_descendants_spec(e, "Title"@)[0]))
    })
    &&& g.description@ == (if element_descendants_spec(e, "Description"@).len() == 0 {
        Seq::<char>::empty()
    } else {
        trim_spec(text_trim(element_descendants_spec(e, "Description"@)[0]))
    })
    &&& (match g.schema_test {
        Some(st) => element_descendants_spec(e, "schemaTest"@).len() > 0 && attr_trim(
            element_descendants_spec(e, "schemaTest"@)[0],
            "name"@,
        ).len() > 0 && (first_named(element_descendants_spec(e, "schemaTest"@)[0], "schemaDocument"@)
            matches Some(d) && attr_trim(d, "href"@).len() > 0) && schema_test_parses(
            element_descendants_spec(e, "schemaTest"@)[0],
            base,
            st,
        ),
        None => element_descendants_spec(e, "schemaTest"@).len() == 0 || attr_trim(
            element_descendants_spec(e, "schemaTest"@)[0],
            "name"@,
        ).len() == 0 || (match first_named(
            element_descendants_spec(e, "schemaTest"@)[0],
            "schemaDocument"@,
        ) {
            Some(d) => attr_trim(d, "href"@).len() == 0,
            None => true,
        }),
    })
    &&& g.instance_tests@.len() == kept.len()
    &&& (forall|k: int|
        0 <= k < kept.len() ==> instance_test_parses(
            kept[k],
            base,
            #[trigger] g.instance_tests@[k],
        ))
}

/// Read one `testGroup` element.
#[verifier::loop_isolation(false)]
pub fn parse_test_group(e: &XmlElement, base_dir: &str) -> (g: TestGroup)
    ensures
        group_parses(*e, base_dir@, g),
{
    proof {
        reveal(group_parses);
    }
    let name = attr_trimmed(e, "name");
    let titles = element_descendants(e, "Title");
    let title: String = if titles.len() > 0 {
        let t = text_trimmed(titles[0]);
        crate::strutil::trim(t.as_str())
    } else {
        String::new()
    };
    let descs = element_descendants(e, "Description");
    let description: String = if descs.len() > 0 {
        let t = text_trimmed(descs[0]);
        crate::strutil::trim(t.as_str())
    } else {
        String::new()
    };
    let schema_elems = element_descendants(e, "schemaTest");
    let schema_test: Option<SchemaTest> = if schema_elems.len() > 0 {
        let st = schema_elems[0];
        let st_name = attr_trimmed(st, "name");
        if st_name.unicode_len() > 0 {
            match first_named_child(st, "schemaDocument") {
                Some(d) => {
                    let href = attr_trimmed(d, "href");
                    if href.unicode_len() > 0 {
                        let validity = match first_named_child(st, "expected") {
                            Some(x) => {
                                let v = attr_trimmed(x, "validity");
                                Validity::from_str(v.as_str())
                            },
                            None => Validity::Indeterminate,
                        };
                        Some(
                            SchemaTest {
                                name: st_name,
                                schema_document: crate::strutil::join_path(
                                    base_dir,
                                    href.as_str(),
                                ),
                                expected_validity: validity,
                            },
                        )
                    } else {
                        None
                    }
                },
                None => None,
            }
        } else {
            None
        }
    } else {
        None
    };
    let inst_elems = element_descendants(e, "instanceTest");
    let ghost insts_spec = element_descendants_spec(*e, "instanceTest"@);
    let mut instance_tests: Vec<InstanceTest> = Vec::new();
    let n: usize = inst_elems.len();
    let mut i: usize = 0;
    while i < n
        invariant
            i <= n,
            instance_tests@.len() == kept_instances_upto(insts_spec, i as int).len(),
            forall|k: int|
                0 <= k < instance_tests@.len() ==> instance_test_parses(
                    kept_instances_upto(insts_spec, i as int)[k],
                    base_dir@,
                    #[trigger] instance_tests@[k],
                ),
        decreases n - i,
    {
        let ghost kept_before = kept_instances_upto(insts_spec, i as int);
        let it = inst_elems[i];
        let it_name = attr_trimmed(it, "name");
        let doc_href: Option<String> = match first_named_child(it, "instanceDocument") {
            Some(d) => {
                let href = attr_trimmed(d, "href");
                if href.unicode_len() > 0 {
                    Some(href)
                } else {
                    None
                }
            },
            None => None,
        };
        if it_name.unicode_len() > 0 && matches!(doc_href, Some(_)) {
            let href = match doc_href {
                Some(h) => h,
                None => String::new(),
            };
            let validity = match first_named_child(it, "expected") {
                Some(x) => {
                    let v = attr_trimmed(x, "validity");
                    Validity::from_str(v.as_str())
                },
                None => Validity::Indeterminate,
            };
            let t = InstanceTest {
                name: it_name,
                instance_document: crate::strutil::join_path(base_dir, href.as_str()),
                expected_validity: validity,
            };
            proof {
                assert(instance_test_parses(insts_spec[i as int], base_dir@, t));
                assert(kept_instances_upto(insts_spec, i + 1) =~= kept_before.push(
                    insts_spec[i as int],
                ));
            }
            instance_tests.push(t);
        } else {
            proof {
                assert(kept_instances_upto(insts_spec, i + 1) =~= kept_before);
            }
        }
        i = i + 1;
    }
    TestGroup { name, title, description, schema_test, instance_tests }
}

/// The `testGroup` elements kept by the parser: those with a name.
pub open spec fn kept_groups_upto(cs: Seq<XmlElement>, i: int) -> Seq<XmlElement>
    decreases i,
{
    if i <= 0 {
        Seq::empty()
    } else {
        kept_groups_upto(cs, i - 1) + (if attr_trim(cs[i - 1], "name"@).len() > 0 {
            seq![cs[i - 1]]
        } else {
            Seq::empty()
        })
    }
}

/// How a test-set document reads as a [`TestSet`]: the root's name and
/// contributor, and one parsed group per named `testGroup` descendant, in
/// document order.
pub open spec fn test_set_read_from(doc: XmlElement, base: Seq<char>, r: TestSet) -> bool {
    let groups = element_descendants_spec(doc, "testGroup"@);
    &&& r.name@ == attr_trim(doc, "name"@)
    &&& r.contributor@ == attr_trim(doc, "contributor"@)
    &&& r.test_groups@.len() == kept_groups_upto(groups, groups.len() as int).len()
    &&& (forall|k: int|
        0 <= k < r.test_groups@.len() ==> group_parses(
            kept_groups_upto(groups, groups.len() as int)[k],
            base,
            #[trigger] r.test_groups@[k],
        ))
}

/// Read an XSD test-set document: its name, contributor and named groups.
#[verifier::loop_isolation(false)]
pub fn parse_test_set(doc: &XmlElement, base_dir: &str) -> (r: TestSet)
    ensures
        test_set_read_from(*doc, base_dir@, r),
{
    let name = attr_trimmed(doc, "name");
    let contributor = attr_trimmed(doc, "contributor");
    let group_elems = element_descendants(doc, "testGroup");
    let ghost groups_spec = element_descendants_spec(*doc, "testGroup"@);
    let mut test_groups: Vec<TestGroup> = Vec::new();
    let n: usize = group_elems.len();
    let mut i: usize = 0;
    while i < n
        invariant
            i <= n,
            test_groups@.len() == kept_groups_upto(groups_spec, i as int).len(),
            forall|k: int|
                0 <= k < test_groups@.len() ==> group_parses(
                    kept_groups_upto(groups_spec, i as int)[k],
                    base_dir@,
                    #[trigger] test_groups@[k],
                ),
        decreases n - i,
    {
        let ghost kept_before = kept_groups_upto(groups_spec, i as int);
        let gname = attr_trimmed(group_elems[i], "name");
        if gname.unicode_len() > 0 {
            let g = parse_test_group(group_elems[i], base_dir);
            proof {
                assert(kept_groups_upto(groups_spec, i + 1) =~= kept_before.push(
                    groups_spec[i as int],
                ));
            }
            test_groups.push(g);
        } else {
            proof {
                assert(kept_groups_upto(groups_spec, i + 1) =~= kept_before);
            }
        }
        i = i + 1;
    }
    TestSet { name, contributor, test_groups }
}

/// The judgment of a schema test: a validation verdict is compared against
/// the expected validity; a validation error passes exactly where invalidity
/// was expected.
pub open spec fn judge_schema_spec(expected: Validity, outcome: Result<bool, Error>) -> Judgment {
    match outcome {
        Ok(valid) => {
            let actual = if valid {
                Validity::Valid
            } else {
                Validity::Invalid
            };
            if actual == expected {
                Judgment::Pass
            } else {
                Judgment::Fail(
                    "Expected "@ + validity_str(expected) + ", got "@ + validity_str(actual),
                )
            }
        },
        Err(e) => {
            if expected == Validity::Invalid {
                Judgment::Pass
            } else {
                Judgment::Fail("Schema validation error: "@ + error_msg_spec(e))
            }
        },
    }
}

/// Judge a schema validation outcome against the expected validity.
pub fn judge_schema_test(expected: Validity, outcome: &Result<bool, Error>) -> (r: TestOutcome)
    ensures
        r@ == judge_schema_spec(expected, *outcome),
{
    match outcome {
        Ok(valid) => {
            let actual = if *valid {
                Validity::Valid
            } else {
                Validity::Invalid
            };
            if actual == expected {
                TestOutcome::Pass
            } else {
                let mut m = "Expected ".to_owned();
                m.append(expected.as_str());
                m.append(", got ");
                m.append(actual.as_str());
                TestOutcome::Fail(m)
            }
        },
        Err(e) => {
            if matches!(expected, Validity::Invalid) {
                TestOutcome::Pass
            } else {
                let msg = e.message();
                TestOutcome::Fail(crate::error::prefixed("Schema validation error: ", &msg))
            }
        },
    }
}

/// The judgment of an instance test: with no schema in the group the test is
/// not applicable; otherwise as a schema test, with the instance wording.
pub open spec fn judge_instance_spec(
    expected: Validity,
    outcome: Option<Result<bool, Error>>,
) -> Judgment {
    match outcome {
        None => Judgment::NotApplicable,
        Some(Ok(valid)) => {
            let actual = if valid {
                Validity::Valid
            } else {
                Validity::Invalid
            };
            if actual == expected {
                Judgment::Pass
            } else {
                Judgment::Fail(
                    "Expected "@ + validity_str(expected) + ", got "@ + validity_str(actual),
                )
            }
        },
        Some(Err(e)) => {
            if expected == Validity::Invalid {
                Judgment::Pass
            } else {
                Judgment::Fail("Validation error: "@ + error_msg_spec(e))
            }
        },
    }
}

/// Judge an instance validation outcome; `None` means the group had no
/// schema to validate against.
pub fn judge_instance_test(expected: Validity, outcome: &Option<Result<bool, Error>>) -> (r:
    TestOutcome)
    ensures
        r@ == judge_instance_spec(expected, *outcome),
{
    match outcome {
        None => TestOutcome::NotApplicable,
        Some(Ok(valid)) => {
            let actual = if *valid {
                Validity::Valid
            } else {
                Validity::Invalid
            };
            if actual == expected {
                TestOutcome::Pass
            } else {
                let mut m = "Expected ".to_owned();
                m.append(expected.as_str());
                m.append(", got ");
                m.append(actual.as_str());
                TestOutcome::Fail(m)
            }
        },
        Some(Err(e)) => {
            if matches!(expected, Validity::Invalid) {
                TestOutcome::Pass
            } else {
                let msg = e.message();
                TestOutcome::Fail(crate::error::prefixed("Validation error: ", &msg))
            }
        },
    }
}

} // verus!

verus! {

use crate::xml::{parse_xml_text, parsed_xml};

/// Parse suite text through the XML parser: the result reads from the
/// parsed document exactly as [`parse_suite`] reads it.
pub fn load_suite(text: &str) -> (r: Option<TestSuite>)
    ensures
        r is Some <==> parsed_xml(text@) is Some,
        r matches Some(suite) ==> parsed_xml(text@) matches Some(doc) && suite_read_from(
            doc,
            suite,
        ),
{
    match parse_xml_text(text) {
        Some(doc) => Some(parse_suite(&doc)),
        None => None,
    }
}

/// Parse test-set text through the XML parser: the result reads from the
/// parsed document exactly as [`parse_test_set`] reads it.
pub fn load_test_set(text: &str, base_dir: &str) -> (r: Option<TestSet>)
    ensures
        r is Some <==> parsed_xml(text@) is Some,
        r matches Some(ts) ==> parsed_xml(text@) matches Some(doc) && test_set_read_from(
            doc,
            base_dir@,
            ts,
        ),
{
    match parse_xml_text(text) {
        Some(doc) => Some(parse_test_set(&doc, base_dir)),
        None => None,
    }
}

} // verus!
