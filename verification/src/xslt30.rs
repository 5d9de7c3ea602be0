//! The XSLT 3.0 catalog dialect: test sets of stylesheet transformations,
//! their environments, and the per-test-case run plan and judgment.

use vstd::prelude::*;
use crate::environment::NameMap;
use crate::error::{Error, error_msg_spec};
use crate::outcome::{Judgment, TestOutcome};
use crate::strutil::join_path_spec;
use crate::xml::{
    attr_trim, attr_trimmed, element_descendants, element_descendants_spec, first_named,
    first_named_child, named_children, named_children_spec, text_of_list, text_trim, text_trimmed,
    XmlElement,
};

verus! {

/// A parsed XSLT 3.0 catalog: its test-set references.
#[derive(Debug)]
pub struct Catalog {
    pub test_sets: Vec<TestSetRef>,
}

/// A reference to one test-set file.
#[derive(Debug, Clone)]
pub struct TestSetRef {
    pub name: String,
    pub file: String,
}

/// A test set: its environments and test cases, in document order.
#[derive(Debug)]
pub struct TestSet {
    pub name: String,
    pub description: String,
    pub environments: NameMap<Environment>,
    pub test_cases: Vec<TestCase>,
}

/// An environment of the XSLT dialect: sources only; the stylesheet and
/// schema slots exist for completeness but are not read from the documents.
#[derive(Debug)]
pub struct Environment {
    pub name: String,
    pub sources: Vec<Source>,
    pub stylesheet: Option<String>,
    pub schemas: Vec<String>,
}

/// A source document: by file, by inline content, or both absent.
#[derive(Debug, Clone)]
pub struct Source {
    pub role: String,
    pub file: Option<String>,
    pub content: Option<String>,
    pub uri: Option<String>,
}

/// One XSLT test case.
#[derive(Debug)]
pub struct TestCase {
    pub name: String,
    pub description: String,
    /// The name of the environment the test runs against, if any.
    pub environment: Option<String>,
    pub stylesheet: Option<String>,
    pub initial_mode: Option<String>,
    pub initial_template: Option<String>,
    pub dependencies: Vec<Dependency>,
    pub result: ExpectedResult,
}

/// A dependency of the XSLT dialect.
#[derive(Debug, Clone)]
pub struct Dependency {
    pub dep_type: String,
    pub value: String,
}

/// The expected result of a transformation.
#[derive(Debug)]
pub enum ExpectedResult {
    /// The serialized output equals this text.
    AssertResult(String),
    /// The output matches this XML, by file or inline.
    AssertXml { file: Option<String>, content: Option<String> },
    /// The transformation raises an error with this code.
    Error(String),
    /// All of these must hold.
    AllOf(Vec<ExpectedResult>),
    /// Any of these may hold.
    AnyOf(Vec<ExpectedResult>),
}

/// The `test-set` elements kept by the catalog parser: name and file.
pub open spec fn kept_sets_upto(cs: Seq<XmlElement>, i: int) -> Seq<XmlElement>
    decreases i,
{
    if i <= 0 {
        Seq::empty()
    } else {
        kept_sets_upto(cs, i - 1) + (if attr_trim(cs[i - 1], "name"@).len() > 0 && attr_trim(
            cs[i - 1],
            "file"@,
        ).len() > 0 {
            seq![cs[i - 1]]
        } else {
            Seq::empty()
        })
    }
}

/// How an XSLT catalog document reads as a [`Catalog`]: one reference per
/// `test-set` descendant naming both a set and a file, in document order.
pub open spec fn catalog_read_from(doc: XmlElement, r: Catalog) -> bool {
    let sets = element_descendants_spec(doc, "test-set"@);
    &&& r.test_sets@.len() == kept_sets_upto(sets, sets.len() as int).len()
    &&& (forall|k: int|
        0 <= k < r.test_sets@.len() ==> (#[trigger] r.test_sets@[k]).name@ == attr_trim(
            kept_sets_upto(sets, sets.len() as int)[k],
            "name"@,
        ) && r.test_sets@[k].file@ == attr_trim(
            kept_sets_upto(sets, sets.len() as int)[k],
            "file"@,
        ))
}

/// Read an XSLT catalog document: the test-set references that name both a
/// set and a file, in order.
#[verifier::loop_isolation(false)]
pub fn parse_catalog(doc: &XmlElement) -> (r: Catalog)
    ensures
        catalog_read_from(*doc, r),
{
    let set_elems = element_descendants(doc, "test-set");
    let ghost sets_spec = element_descendants_spec(*doc, "test-set"@);
    let mut test_sets: Vec<TestSetRef> = Vec::new();
    let n: usize = set_elems.len();
    let mut i: usize = 0;
    while i < n
        invariant
            i <= n,
            test_sets@.len() == kept_sets_upto(sets_spec, i as int).len(),
            forall|k: int|
                0 <= k < test_sets@.len() ==> (#[trigger] test_sets@[k]).name@ == attr_trim(
                    kept_sets_upto(sets_spec, i as int)[k],
                    "name"@,
                ) && test_sets@[k].file@ == attr_trim(
                    kept_sets_upto(sets_spec, i as int)[k],
                    "file"@,
                ),
        decreases n - i,
    {
        let ghost kept_before = kept_sets_upto(sets_spec, i as int);
        let set_name = attr_trimmed(set_elems[i], "name");
        let set_file = attr_trimmed(set_elems[i], "file");
        if set_name.unicode_len() > 0 && set_file.unicode_len() > 0 {
            proof {
                assert(kept_sets_upto(sets_spec, i + 1) =~= kept_before.push(
                    sets_spec[i as int],
                ));
            }
            test_sets.push(TestSetRef { name: set_name, file: set_file });
        } else {
            proof {
                assert(kept_sets_upto(sets_spec, i + 1) =~= kept_before);
            }
        }
        i = i + 1;
    }
    Catalog { test_sets }
}

/// How one `source` element of an environment reads: the role as written,
/// the file resolved against the test set's directory where one is named,
/// and inline content kept where its text is not all whitespace.
pub open spec fn source_parses(e: XmlElement, base: Seq<char>, src: Source) -> bool {
    &&& src.role@ == attr_trim(e, "role"@)
    &&& (match src.file {
        Some(f) => attr_trim(e, "file"@).len() > 0 && f@ == join_path_spec(
            base,
            attr_trim(e, "file"@),
        ),
        None => attr_trim(e, "file"@).len() == 0,
    })
    &&& (match src.content {
        Some(c) => first_named(e, "content"@) matches Some(ce) && text_trim(ce).len() > 0 && c@
            == text_of_list(ce.children@),
        None => match first_named(e, "content"@) {
            Some(ce) => text_trim(ce).len() == 0,
            None => true,
        },
    })
    &&& src.uri is None
}

/// How one `environment` element reads: the name and every source, in order.
#[verifier::opaque]
pub open spec fn env_parses(e: XmlElement, base: Seq<char>, env: Environment) -> bool {
    let srcs = named_children_spec(e, "source"@);
    &&& env.name@ == attr_trim(e, "name"@)
    &&& env.sources@.len() == srcs.len()
    &&& (forall|k: int|
        0 <= k < srcs.len() ==> source_parses(srcs[k], base, #[trigger] env.sources@[k]))
    &&& env.stylesheet is None
    &&& env.schemas@.len() == 0
}

/// Read one `environment` element.
#[verifier::loop_isolation(false)]
pub fn parse_environment(e: &XmlElement, base_dir: &str) -> (env: Environment)
    ensures
        env_parses(*e, base_dir@, env),
{
    proof {
        reveal(env_parses);
    }
    let name = attr_trimmed(e, "name");
    let srcs = named_children(e, "source");
    let ghost srcs_spec = named_children_spec(*e, "source"@);
    let mut sources: Vec<Source> = Vec::new();
    let n: usize = srcs.len();
    let mut i: usize = 0;
    while i < n
        invariant
            i <= n,
            n == srcs_spec.len(),
            sources@.len() == i,
            forall|k: int|
                0 <= k < i ==> source_parses(srcs_spec[k], base_dir@, #[trigger] sources@[k]),
        decreases n - i,
    {
        let role = attr_trimmed(srcs[i], "role");
        let file_attr = attr_trimmed(srcs[i], "file");
        let file: Option<String> = if file_attr.unicode_len() > 0 {
            Some(crate::strutil::join_path(base_dir, file_attr.as_str()))
        } else {
            None
        };
        let content: Option<String> = match first_named_child(srcs[i], "content") {
            Some(ce) => {
                let trimmed = text_trimmed(ce);
                if trimmed.unicode_len() > 0 {
                    Some(crate::xml::element_text(ce))
                } else {
                    None
                }
            },
            None => None,
        };
        let src = Source { role, file, content, uri: None };
        proof {
            assert(source_parses(srcs_spec[i as int], base_dir@, src));
        }
        sources.push(src);
        i = i + 1;
    }
    Environment { name, sources, stylesheet: None, schemas: Vec::new() }
}

/// How one `test-case` element reads: name, description, environment
/// reference, stylesheet file, initial mode and template; the dependency
/// list is not read from the XSLT documents, and the expected result is kept
/// as the empty serialized-output assertion.
pub open spec fn test_case_parses(e: XmlElement, base: Seq<char>, tc: TestCase) -> bool {
    &&& tc.name@ == attr_trim(e, "name"@)
    &&& tc.description@ == (match first_named(e, "description"@) {
        Some(d) => text_trim(d),
        None => Seq::empty(),
    })
    &&& (match tc.environment {
        Some(nm) => first_named(e, "environment"@) matches Some(c) && attr_trim(c, "ref"@).len()
            > 0 && nm@ == attr_trim(c, "ref"@),
        None => match first_named(e, "environment"@) {
            Some(c) => attr_trim(c, "ref"@).len() == 0,
            None => true,
        },
    })
    &&& (match tc.stylesheet {
        Some(f) => first_named(e, "test"@) matches Some(t) && (first_named(t, "stylesheet"@)
            matches Some(st) && attr_trim(st, "file"@).len() > 0 && f@ == join_path_spec(
            base,
            attr_trim(st, "file"@),
        )),
        None => match first_named(e, "test"@) {
            Some(t) => match first_named(t, "stylesheet"@) {
                Some(st) => attr_trim(st, "file"@).len() == 0,
                None => true,
            },
            None => true,
        },
    })
    &&& (match tc.initial_template {
        Some(nm) => first_named(e, "test"@) matches Some(t) && (first_named(t, "initial-template"@)
            matches Some(it) && attr_trim(it, "name"@).len() > 0 && nm@ == attr_trim(
            it,
            "name"@,
        )),
        None => match first_named(e, "test"@) {
            Some(t) => match first_named(t, "initial-template"@) {
                Some(it) => attr_trim(it, "name"@).len() == 0,
                None => true,
            },
            None => true,
        },
    })
    &&& (match tc.initial_mode {
        Some(nm) => first_named(e, "test"@) matches Some(t) && (first_named(t, "initial-mode"@)
            matches Some(im) && attr_trim(im, "name"@).len() > 0 && nm@ == attr_trim(
            im,
            "name"@,
        )),
        None => match first_named(e, "test"@) {
            Some(t) => match first_named(t, "initial-mode"@) {
                Some(im) => attr_trim(im, "name"@).len() == 0,
                None => true,
            },
            None => true,
        },
    })
    &&& tc.dependencies@.len() == 0
    &&& (tc.result matches ExpectedResult::AssertResult(s) && s@.len() == 0)
}

/// Read one `test-case` element.
pub fn parse_test_case(e: &XmlElement, base_dir: &str) -> (tc: TestCase)
    ensures
        test_case_parses(*e, base_dir@, tc),
{
    let name = attr_trimmed(e, "name");
    let description = match first_named_child(e, "description") {
        Some(d) => text_trimmed(d),
        None => String::new(),
    };
    let environment: Option<String> = match first_named_child(e, "environment") {
        Some(c) => {
            let r = attr_trimmed(c, "ref");
            if r.unicode_len() > 0 {
                Some(r)
            } else {
                None
            }
        },
        None => None,
    };
    let test_child = first_named_child(e, "test");
    let stylesheet: Option<String> = match test_child {
        Some(t) => match first_named_child(t, "stylesheet") {
            Some(st) => {
                let f = attr_trimmed(st, "file");
                if f.unicode_len() > 0 {
                    Some(crate::strutil::join_path(base_dir, f.as_str()))
                } else {
                    None
                }
            },
            None => None,
        },
        None => None,
    };
    let initial_template: Option<String> = match test_child {
        Some(t) => match first_named_child(t, "initial-template") {
            Some(it) => {
                let nm = attr_trimmed(it, "name");
                if nm.unicode_len() > 0 {
                    Some(nm)
                } else {
                    None
                }
            },
            None => None,
        },
        None => None,
    };
    let initial_mode: Option<String> = match test_child {
        Some(t) => match first_named_child(t, "initial-mode") {
            Some(im) => {
                let nm = attr_trimmed(im, "name");
                if nm.unicode_len() > 0 {
                    Some(nm)
                } else {
                    None
                }
            },
            None => None,
        },
        None => None,
    };
    TestCase {
        name,
        description,
        environment,
        stylesheet,
        initial_mode,
        initial_template,
        dependencies: Vec::new(),
        result: ExpectedResult::AssertResult(String::new()),
    }
}

/// The `test-case` elements kept by the parser: those with a name.
pub open spec fn kept_cases_upto(cs: Seq<XmlElement>, i: int) -> Seq<XmlElement>
    decreases i,
{
    if i <= 0 {
        Seq::empty()
    } else {
        kept_cases_upto(cs, i - 1) + (if attr_trim(cs[i - 1], "name"@).len() > 0 {
            seq![cs[i - 1]]
        } else {
            Seq::empty()
        })
    }
}

/// How an XSLT test-set document reads as a [`TestSet`]: the root's name,
/// the first description's text, the environment map bound exactly from the
/// root's named `environment` children, and one parsed case per named
/// `test-case` descendant, in document order.
pub open spec fn test_set_read_from(doc: XmlElement, base: Seq<char>, r: TestSet) -> bool {
    let envs = named_children_spec(doc, "environment"@);
    let cases = element_descendants_spec(doc, "test-case"@);
    &&& r.name@ == attr_trim(doc, "name"@)
    &&& r.description@ == (match first_named(doc, "description"@) {
        Some(d) => text_trim(d),
        None => Seq::<char>::empty(),
    })
    &&& (forall|nm: Seq<char>|
        #[trigger] r.environments.spec_get(nm) matches Some(env) ==> exists|k: int|
            0 <= k < envs.len() && #[trigger] attr_trim(envs[k], "name"@) == nm && nm.len() > 0
                && env_parses(envs[k], base, env))
    &&& (forall|nm: Seq<char>|
        nm.len() > 0 && (exists|k: int|
            0 <= k < envs.len() && #[trigger] attr_trim(envs[k], "name"@) == nm)
            ==> r.environments.spec_get(nm) is Some)
    &&& r.test_cases@.len() == kept_cases_upto(cases, cases.len() as int).len()
    &&& (forall|k: int|
        0 <= k < r.test_cases@.len() ==> test_case_parses(
            kept_cases_upto(cases, cases.len() as int)[k],
            base,
            #[trigger] r.test_cases@[k],
        ))
}

/// Read an XSLT test-set document: its name and description, its named
/// environments, and its named test cases, in document order.
#[verifier::loop_isolation(false)]
#[verifier::rlimit(30)]
pub fn parse_test_set(doc: &XmlElement, base_dir: &str) -> (r: TestSet)
    ensures
        test_set_read_from(*doc, base_dir@, r),
{
    let name = attr_trimmed(doc, "name");
    let description = match first_named_child(doc, "description") {
        Some(d) => text_trimmed(d),
        None => String::new(),
    };
    let env_elems = named_children(doc, "environment");
    let ghost envs_spec = named_children_spec(*doc, "environment"@);
    let mut environments: NameMap<Environment> = NameMap::new();
    let en: usize = env_elems.len();
    let mut j: usize = 0;
    while j < en
        invariant
            j <= en,
            en == envs_spec.len(),
            forall|nm: Seq<char>|
                #[trigger] environments.spec_get(nm) matches Some(env) ==> exists|k: int|
                    0 <= k < j && #[trigger] attr_trim(envs_spec[k], "name"@) == nm && nm.len()
                        > 0 && env_parses(envs_spec[k], base_dir@, env),
            forall|nm: Seq<char>|
                nm.len() > 0 && (exists|k: int|
                    0 <= k < j && #[trigger] attr_trim(envs_spec[k], "name"@) == nm)
                    ==> environments.spec_get(nm) is Some,
        decreases en - j,
    {
        let env_name = attr_trimmed(env_elems[j], "name");
        let ghost before = environments;
        if env_name.unicode_len() > 0 {
            let env = parse_environment(env_elems[j], base_dir);
            let ghost kv = env_name@;
            environments.insert(env_name, env);
            proof {
                assert forall|nm: Seq<char>| #[trigger] environments.spec_get(nm) matches Some(
                    env2,
                ) implies (exists|k: int|
                    0 <= k < j + 1 && #[trigger] attr_trim(envs_spec[k], "name"@) == nm
                        && nm.len() > 0 && env_parses(
                        envs_spec[k],
                        base_dir@,
                        (environments.spec_get(nm)->Some_0),
                    )) by {
                    if nm == kv {
                        assert(attr_trim(envs_spec[j as int], "name"@) == nm);
                    } else {
                        assert(environments.spec_get(nm) == before.spec_get(nm));
                    }
                }
                assert forall|nm: Seq<char>|
                    nm.len() > 0 && (exists|k: int|
                        0 <= k < j + 1 && #[trigger] attr_trim(envs_spec[k], "name"@)
                            == nm) implies environments.spec_get(nm) is Some by {
                    if nm != kv {
                        assert(environments.spec_get(nm) == before.spec_get(nm));
                        let k = choose|k: int|
                            0 <= k < j + 1 && attr_trim(envs_spec[k], "name"@) == nm;
                        assert(k < j);
                    }
                }
            }
        } else {
            proof {
                assert forall|nm: Seq<char>|
                    nm.len() > 0 && (exists|k: int|
                        0 <= k < j + 1 && #[trigger] attr_trim(envs_spec[k], "name"@)
                            == nm) implies environments.spec_get(nm) is Some by {
                    let k = choose|k: int| 0 <= k < j + 1 && attr_trim(envs_spec[k], "name"@)
                        == nm;
                    assert(k < j);
                }
            }
        }
        j = j + 1;
    }
    let tc_elems = element_descendants(doc, "test-case");
    let ghost tcs_spec = element_descendants_spec(*doc, "test-case"@);
    let mut test_cases: Vec<TestCase> = Vec::new();
    let n: usize = tc_elems.len();
    let mut i: usize = 0;
    while i < n
        invariant
            i <= n,
            n == tcs_spec.len(),
            test_cases@.len() == kept_cases_upto(tcs_spec, i as int).len(),
            forall|k: int|
                0 <= k < test_cases@.len() ==> test_case_parses(
                    kept_cases_upto(tcs_spec, i as int)[k],
                    base_dir@,
                    #[trigger] test_cases@[k],
                ),
        decreases n - i,
    {
        let ghost kept_before = kept_cases_upto(tcs_spec, i as int);
        let tc_name = attr_trimmed(tc_elems[i], "name");
        if tc_name.unicode_len() > 0 {
            let tc = parse_test_case(tc_elems[i], base_dir);
            proof {
                assert(kept_cases_upto(tcs_spec, i + 1) =~= kept_before.push(
                    tcs_spec[i as int],
                ));
            }
            test_cases.push(tc);
        } else {
            proof {
                assert(kept_cases_upto(tcs_spec, i + 1) =~= kept_before);
            }
        }
        i = i + 1;
    }
    TestSet { name, description, environments, test_cases }
}

/// What the XSLT runner must do for one test case, decided before any
/// engine call.
#[derive(Debug)]
pub enum XsltPlan {
    /// No stylesheet is named: the case is not applicable.
    NotApplicable { detail: String },
    /// The named environment is absent: report an error naming it.
    EnvironmentError { message: String },
    /// Transform: load this stylesheet, against this context.
    Transform { stylesheet: String, context: ContextSource },
}

/// Where the context document of a transformation comes from.
#[derive(Debug)]
pub enum ContextSource {
    /// Parse this inline content.
    Inline(String),
    /// Parse this file.
    File(String),
    /// No source: an empty placeholder document stands in.
    Empty,
}

/// The message given when a test case names an absent environment.
pub open spec fn env_missing_msg(name: Seq<char>) -> Seq<char> {
    "Environment not found: "@ + name
}

/// The index of the first source with the context-item role `"."`.
pub open spec fn ctx_index(sources: Seq<Source>) -> Option<int> {
    if exists|k: int| 0 <= k < sources.len() && sources[k].role@ == "."@ {
        Some(choose|k: int|
            0 <= k < sources.len() && sources[k].role@ == "."@ && (forall|j: int|
                0 <= j < k ==> sources[j].role@ != "."@))
    } else {
        None
    }
}

/// The context source an environment provides: its context-item source, or
/// its first source, read as inline content first and a file second.
pub open spec fn env_context_spec(env: Environment) -> ContextSource {
    let picked = if ctx_index(env.sources@) is Some {
        ctx_index(env.sources@)->Some_0
    } else {
        0int
    };
    if env.sources@.len() == 0 {
        ContextSource::Empty
    } else {
        let src = env.sources@[picked];
        match src.content {
            Some(c) => ContextSource::Inline(c),
            None => match src.file {
                Some(f) => ContextSource::File(f),
                None => ContextSource::Empty,
            },
        }
    }
}

/// Decide what to do for an XSLT test case before touching the engine:
/// a case without a stylesheet is not applicable; a named environment that
/// is absent is an error naming it; otherwise the stylesheet is transformed
/// against the environment's context source, or an empty document.
pub fn plan_test_case(tc: &TestCase, envs: &NameMap<Environment>) -> (r: XsltPlan)
    ensures
        match tc.stylesheet {
            None => r matches XsltPlan::NotApplicable { detail } && detail@
                == "No stylesheet specified in test case"@,
            Some(sheet) => match tc.environment {
                Some(nm) => {
                    if envs.spec_get(nm@) is Some {
                        r matches XsltPlan::Transform { stylesheet, context } && stylesheet@
                            == sheet@ && context@ == env_context_spec(
                            envs.spec_get(nm@)->Some_0,
                        )@
                    } else {
                        r matches XsltPlan::EnvironmentError { message } && message@
                            == env_missing_msg(nm@)
                    }
                },
                None => r matches XsltPlan::Transform { stylesheet, context } && stylesheet@
                    == sheet@ && context is Empty,
            },
        },
{
    let sheet: &String = match &tc.stylesheet {
        Some(s) => s,
        None => {
            return XsltPlan::NotApplicable {
                detail: "No stylesheet specified in test case".to_owned(),
            };
        },
    };
    match &tc.environment {
        Some(nm) => match envs.get(nm.as_str()) {
            Some(env) => XsltPlan::Transform {
                stylesheet: sheet.clone(),
                context: env_context(env),
            },
            None => {
                let owned = nm.clone();
                XsltPlan::EnvironmentError {
                    message: crate::error::prefixed("Environment not found: ", &owned),
                }
            },
        },
        None => XsltPlan::Transform { stylesheet: sheet.clone(), context: ContextSource::Empty },
    }
}

impl View for ContextSource {
    type V = ContextSource;

    open spec fn view(&self) -> ContextSource {
        *self
    }
}

/// The context source of an environment, as an owned value.
fn env_context(env: &Environment) -> (r: ContextSource)
    ensures
        r == env_context_spec(*env),
{
    if env.sources.len() == 0 {
        return ContextSource::Empty;
    }
    let mut picked: usize = 0;
    let n: usize = env.sources.len();
    let mut i: usize = 0;
    let mut found: bool = false;
    while i < n
        invariant
            i <= n,
            n == env.sources@.len(),
            !found ==> forall|j: int| 0 <= j < i ==> env.sources@[j].role@ != "."@,
            !found ==> picked == 0,
            found ==> 0 <= picked < n && env.sources@[picked as int].role@ == "."@ && (forall|
                j: int,
            |
                0 <= j < picked ==> env.sources@[j].role@ != "."@),
        decreases n - i,
    {
        if !found && crate::strutil::str_eq(env.sources[i].role.as_str(), ".") {
            picked = i;
            found = true;
        }
        i = i + 1;
    }
    proof {
        if found {
            assert(ctx_index(env.sources@) == Some(picked as int));
        } else {
            assert(ctx_index(env.sources@) is None);
        }
    }
    let src = &env.sources[picked];
    match &src.content {
        Some(c) => ContextSource::Inline(c.clone()),
        None => match &src.file {
            Some(f) => ContextSource::File(f.clone()),
            None => ContextSource::Empty,
        },
    }
}

/// The judgment of a transformation outcome: success passes; a failure
/// passes exactly where the test expected an error.
pub open spec fn judge_transform_spec(
    expected: ExpectedResult,
    outcome: Result<String, Error>,
) -> Judgment {
    match outcome {
        Ok(_) => Judgment::Pass,
        Err(e) => {
            if expected is Error {
                Judgment::Pass
            } else {
                Judgment::Fail("Transform failed: "@ + error_msg_spec(e))
            }
        },
    }
}

/// Judge a transformation outcome against the expected result.
pub fn judge_transform(expected: &ExpectedResult, outcome: &Result<String, Error>) -> (r:
    TestOutcome)
    ensures
        r@ == judge_transform_spec(*expected, *outcome),
{
    match outcome {
        Ok(_) => TestOutcome::Pass,
        Err(e) => {
            if matches!(expected, ExpectedResult::Error(_)) {
                TestOutcome::Pass
            } else {
                let msg = e.message();
                TestOutcome::Fail(crate::error::prefixed("Transform failed: ", &msg))
            }
        },
    }
}

} // verus!

verus! {

use crate::xml::{parse_xml_text, parsed_xml};

/// Parse catalog text through the XML parser: the result reads from the
/// parsed document exactly as [`parse_catalog`] reads it.
pub fn load_catalog(text: &str) -> (r: Option<Catalog>)
    ensures
        r is Some <==> parsed_xml(text@) is Some,
        r matches Some(c) ==> parsed_xml(text@) matches Some(doc) && catalog_read_from(doc, c),
{
    match parse_xml_text(text) {
        Some(doc) => Some(parse_catalog(&doc)),
        None => None,
    }
}

/// Parse test-set text through the XML parser: the result reads from the
/// parsed document exactly as [`parse_test_set`] reads it.
pub fn load_test_set(text: &str, base_dir: &str) -> (r: Option<TestSet>)
    ensures
        r is Some <==> parsed_xml(text@) is Some,
        r matches Some(ts) ==> parsed_xml(text@) matches Some(doc) && test_set_read_from(
            doc,
            base_dir@,
            ts,
        ),
{
    match parse_xml_text(text) {
        Some(doc) => Some(parse_test_set(&doc, base_dir)),
        None => None,
    }
}

} // verus!
