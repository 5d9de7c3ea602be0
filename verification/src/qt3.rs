//! The QT3 (XPath/XQuery) catalog dialect: its data model, the catalog and
//! test-set parsers, dependency checking and the per-test-case run plan.

use vstd::prelude::*;
use crate::assertion::Assertion;
use crate::engine::{any_token_supported, list_has, EngineCapabilities};
use crate::environment::{
    context_source_index, env_not_found_msg, Environment, EnvironmentRef, NameMap, Source,
};
use crate::strutil::join_path_spec;
use crate::xml::XmlElement;

verus! {

/// A parsed QT3 catalog: its global environments and test-set references.
#[derive(Debug)]
pub struct Catalog {
    /// Global environments available to every test set.
    pub environments: NameMap<Environment>,
    /// References to the test-set files, in catalog order.
    pub test_sets: Vec<TestSetRef>,
}

/// A reference from the catalog to one test-set file.
#[derive(Debug, Clone)]
pub struct TestSetRef {
    pub name: String,
    pub file: String,
}

/// A test set: its own environments and its test cases, in document order.
#[derive(Debug)]
pub struct TestSet {
    pub name: String,
    /// Environments declared in the test set itself; a local name shadows a
    /// global one of the same name.
    pub environments: NameMap<Environment>,
    /// Dependencies declared for the whole set.
    pub dependencies: Vec<Dependency>,
    pub test_cases: Vec<TestCase>,
}

/// A dependency: what the engine must support for a test to apply.
#[derive(Debug, Clone)]
pub struct Dependency {
    pub dep_type: String,
    pub value: String,
    /// The catalog-declared fallback for dependency types the checker does
    /// not recognize.
    pub satisfied: bool,
}

/// One test case.
#[derive(Debug)]
pub struct TestCase {
    pub name: String,
    pub description: String,
    /// The environment the test runs against, named or inline.
    pub environment: Option<EnvironmentRef>,
    pub dependencies: Vec<Dependency>,
    /// The XPath or XQuery expression under test.
    pub test: String,
    /// The expected-result tree.
    pub result: Assertion,
}

/// Whether the engine's declared capabilities satisfy one dependency:
/// a `spec` dependency holds when any whole token of its value is a declared
/// specification token; a `feature` dependency holds unless the feature is
/// declared unsupported; any other type falls back to the catalog's flag.
pub open spec fn check_dependency_spec(dep: Dependency, caps: EngineCapabilities) -> bool {
    if dep.dep_type@ == "spec"@ {
        any_token_supported(caps.spec_tokens@, dep.value@)
    } else if dep.dep_type@ == "feature"@ {
        !list_has(caps.unsupported_features@, dep.value@)
    } else {
        dep.satisfied
    }
}

/// Decide whether the engine's declared capabilities satisfy `dep`.
pub fn check_dependency(dep: &Dependency, caps: &EngineCapabilities) -> (r: bool)
    ensures
        r == check_dependency_spec(*dep, *caps),
{
    if crate::strutil::str_eq(dep.dep_type.as_str(), "spec") {
        crate::engine::any_supported_token(&caps.spec_tokens, dep.value.as_str())
    } else if crate::strutil::str_eq(dep.dep_type.as_str(), "feature") {
        !crate::engine::list_contains(&caps.unsupported_features, dep.value.as_str())
    } else {
        dep.satisfied
    }
}

/// What the runner must do for one test case, decided before any engine call.
#[derive(Debug)]
pub enum TestPlan {
    /// A dependency is unsatisfied: report the case not applicable, with the
    /// dependency named, and invoke no engine operation.
    NotApplicable { detail: String },
    /// The named environment cannot be resolved: report an error, and invoke
    /// no engine operation.
    EnvironmentError { message: String },
    /// Invoke the engine: parse the context document, where the environment
    /// names one, and evaluate the test expression against it.
    Execute { context_file: Option<String> },
}

/// The detail text naming an unsatisfied dependency.
pub open spec fn dependency_detail_spec(dep: Dependency) -> Seq<char> {
    "Dependency not satisfied: "@ + dep.dep_type@ + " = "@ + dep.value@
}

/// The index of the first unsatisfied dependency, if any.
pub open spec fn first_unsatisfied(deps: Seq<Dependency>, caps: EngineCapabilities) -> Option<
    int,
> {
    if exists|k: int| 0 <= k < deps.len() && !check_dependency_spec(deps[k], caps) {
        Some(choose|k: int|
            0 <= k < deps.len() && !check_dependency_spec(deps[k], caps) && (forall|j: int|
                0 <= j < k ==> check_dependency_spec(deps[j], caps)))
    } else {
        None
    }
}

/// The context-item file of an environment: the file of its first source
/// whose role is `"."`, if any.
pub open spec fn context_file_spec(env: Environment) -> Option<Seq<char>> {
    match context_source_index(env.sources@) {
        Some(k) => Some(env.sources@[k].file@),
        None => None,
    }
}

/// Decide what to do for `tc` before touching the engine.
///
/// Any unsatisfied dependency makes the case not applicable, naming the first
/// unsatisfied dependency; no engine operation is planned for it.  Otherwise
/// the environment reference is resolved against the local map first and the
/// global map second; a named environment absent from both is an error whose
/// message names the environment.  Otherwise the engine is to be invoked,
/// with the resolved environment's context-item source where one exists.
pub fn plan_test_case(
    tc: &TestCase,
    local_envs: &NameMap<Environment>,
    global_envs: &NameMap<Environment>,
    caps: &EngineCapabilities,
) -> (r: TestPlan)
    ensures
        match first_unsatisfied(tc.dependencies@, *caps) {
            Some(k) => r matches TestPlan::NotApplicable { detail } && detail@
                == dependency_detail_spec(tc.dependencies@[k]),
            None => match tc.environment {
                None => r == (TestPlan::Execute { context_file: None::<String> }),
                Some(EnvironmentRef::Inline(env)) => (r matches TestPlan::Execute { context_file }
                    && match context_file_spec(env) {
                    Some(f) => context_file matches Some(cf) && cf@ == f,
                    None => context_file is None,
                }),
                Some(EnvironmentRef::Named(nm)) => {
                    if local_envs.spec_get(nm@) is Some || global_envs.spec_get(nm@) is Some {
                        let env = if local_envs.spec_get(nm@) is Some {
                            local_envs.spec_get(nm@)->Some_0
                        } else {
                            global_envs.spec_get(nm@)->Some_0
                        };
                        r matches TestPlan::Execute { context_file } && match context_file_spec(
                            env,
                        ) {
                            Some(f) => context_file matches Some(cf) && cf@ == f,
                            None => context_file is None,
                        }
                    } else {
                        r matches TestPlan::EnvironmentError { message } && message@
                            == env_not_found_msg(nm@)
                    }
                },
            },
        },
{
    let n: usize = tc.dependencies.len();
    let mut i: usize = 0;
    while i < n
        invariant
            i <= n,
            n == tc.dependencies@.len(),
            forall|j: int| 0 <= j < i ==> check_dependency_spec(tc.dependencies@[j], *caps),
        decreases n - i,
    {
        if !check_dependency(&tc.dependencies[i], caps) {
            let mut detail = "Dependency not satisfied: ".to_owned();
            detail.append(tc.dependencies[i].dep_type.as_str());
            detail.append(" = ");
            detail.append(tc.dependencies[i].value.as_str());
            return TestPlan::NotApplicable { detail };
        }
        i = i + 1;
    }
    proof {
        assert(first_unsatisfied(tc.dependencies@, *caps) is None);
    }
    match &tc.environment {
        None => TestPlan::Execute { context_file: None },
        Some(EnvironmentRef::Inline(env)) => TestPlan::Execute {
            context_file: env_context_file(env),
        },
        Some(EnvironmentRef::Named(nm)) => {
            match crate::environment::resolve_named_environment(nm.as_str(), local_envs,
                global_envs) {
                Ok(env) => TestPlan::Execute { context_file: env_context_file(env) },
                Err(message) => TestPlan::EnvironmentError { message },
            }
        },
    }
}

/// The context-item file of an environment, as an owned path.
fn env_context_file(env: &Environment) -> (r: Option<String>)
    ensures
        match context_file_spec(*env) {
            Some(f) => r matches Some(cf) && cf@ == f,
            None => r is None,
        },
{
    match crate::environment::context_source(env) {
        Some(src) => {
            proof {
                let k = choose|k: int|
                    0 <= k < env.sources@.len() && env.sources@[k] == *src && src.role@ == "."@
                        && (forall|j: int| 0 <= j < k ==> env.sources@[j].role@ != "."@);
                let ci = context_source_index(env.sources@);
                assert(ci == Some(k));
            }
            Some(src.file.clone())
        },
        None => {
            proof {
                assert(context_source_index(env.sources@) is None);
            }
            None
        },
    }
}

/// An unsatisfied dependency always yields a not-applicable plan: the plan
/// never asks for an engine operation in that case.
pub proof fn lemma_unsatisfied_dependency_skips_engine(
    deps: Seq<Dependency>,
    caps: EngineCapabilities,
    k: int,
)
    requires
        0 <= k < deps.len(),
        !check_dependency_spec(deps[k], caps),
    ensures
        first_unsatisfied(deps, caps) is Some,
{
}

} // verus!

verus! {

use crate::xml::{
    attr_trim, attr_trimmed, named_children, named_children_spec, seqs_of, XmlNode,
};

/// How one `source` element reads as a [`Source`]: an empty role means the
/// context item, the file is resolved against the test set's directory, and
/// an empty URI reads as absent.
pub open spec fn source_parses(e: XmlElement, base: Seq<char>, src: Source) -> bool {
    &&& src.role@ == (if attr_trim(e, "role"@).len() == 0 {
        "."@
    } else {
        attr_trim(e, "role"@)
    })
    &&& src.file@ == join_path_spec(base, attr_trim(e, "file"@))
    &&& (match src.uri {
        Some(u) => attr_trim(e, "uri"@).len() > 0 && u@ == attr_trim(e, "uri"@),
        None => attr_trim(e, "uri"@).len() == 0,
    })
    &&& src.validation is None
}

/// The `source` elements kept by the parser: those naming a file.
pub open spec fn kept_sources_upto(cs: Seq<XmlElement>, i: int) -> Seq<XmlElement>
    decreases i,
{
    if i <= 0 {
        Seq::empty()
    } else {
        kept_sources_upto(cs, i - 1) + (if attr_trim(cs[i - 1], "file"@).len() > 0 {
            seq![cs[i - 1]]
        } else {
            Seq::empty()
        })
    }
}

/// How one `environment` element reads as an [`Environment`]: the name where
/// one is given, the file-bearing sources in order, and the namespace
/// bindings with a nonempty URI, later bindings of a prefix replacing
/// earlier ones.  Parameters, schemas and collections are not read from the
/// QT3 environments.
#[verifier::opaque]
pub open spec fn env_parses(e: XmlElement, base: Seq<char>, env: Environment) -> bool {
    let srcs = named_children_spec(e, "source"@);
    let kept = kept_sources_upto(srcs, srcs.len() as int);
    let nss = named_children_spec(e, "namespace"@);
    &&& (match env.name {
        Some(nm) => attr_trim(e, "name"@).len() > 0 && nm@ == attr_trim(e, "name"@),
        None => attr_trim(e, "name"@).len() == 0,
    })
    &&& env.sources@.len() == kept.len()
    &&& (forall|k: int|
        0 <= k < kept.len() ==> source_parses(kept[k], base, #[trigger] env.sources@[k]))
    &&& (forall|p: Seq<char>|
        match #[trigger] env.namespaces.spec_get(p) {
            Some(u) => exists|k: int|
                0 <= k < nss.len() && #[trigger] attr_trim(nss[k], "uri"@).len() > 0 && attr_trim(
                    nss[k],
                    "prefix"@,
                ) == p && attr_trim(nss[k], "uri"@) == u@,
            None => forall|k: int|
                0 <= k < nss.len() ==> !(#[trigger] attr_trim(nss[k], "uri"@).len() > 0
                    && attr_trim(nss[k], "prefix"@) == p),
        })
    &&& env.params@.len() == 0
    &&& env.schemas@.len() == 0
    &&& env.collections@.len() == 0
    &&& env.static_base_uri is None
}

/// Read one `environment` element.
#[verifier::loop_isolation(false)]
pub fn parse_environment(e: &XmlElement, base_dir: &str) -> (env: Environment)
    ensures
        env_parses(*e, base_dir@, env),
{
    proof {
        reveal(env_parses);
    }
    let name = attr_trimmed(e, "name");
    let name_opt: Option<String> = if name.unicode_len() > 0 {
        Some(name)
    } else {
        None
    };
    let srcs = named_children(e, "source");
    let ghost srcs_spec = named_children_spec(*e, "source"@);
    let mut sources: Vec<Source> = Vec::new();
    let sn: usize = srcs.len();
    let mut i: usize = 0;
    while i < sn
        invariant
            i <= sn,
            sources@.len() == kept_sources_upto(srcs_spec, i as int).len(),
            forall|k: int|
                0 <= k < sources@.len() ==> source_parses(
                    kept_sources_upto(srcs_spec, i as int)[k],
                    base_dir@,
                    #[trigger] sources@[k],
                ),
        decreases sn - i,
    {
        let ghost kept_before = kept_sources_upto(srcs_spec, i as int);
        let file = attr_trimmed(srcs[i], "file");
        if file.unicode_len() > 0 {
            let role = attr_trimmed(srcs[i], "role");
            let role_final: String = if role.unicode_len() == 0 {
                ".".to_owned()
            } else {
                role
            };
            let uri = attr_trimmed(srcs[i], "uri");
            let uri_opt: Option<String> = if uri.unicode_len() == 0 {
                None
            } else {
                Some(uri)
            };
            let src = Source {
                role: role_final,
                file: crate::strutil::join_path(base_dir, file.as_str()),
                uri: uri_opt,
                validation: None,
            };
            proof {
                assert(source_parses(srcs_spec[i as int], base_dir@, src));
                assert(kept_sources_upto(srcs_spec, i + 1) =~= kept_before.push(
                    srcs_spec[i as int],
                ));
            }
            sources.push(src);
        } else {
            proof {
                assert(kept_sources_upto(srcs_spec, i + 1) =~= kept_before);
            }
        }
        i = i + 1;
    }
    let nss = named_children(e, "namespace");
    let ghost nss_spec = named_children_spec(*e, "namespace"@);
    let mut namespaces: NameMap<String> = NameMap::new();
    let nn: usize = nss.len();
    let mut j: usize = 0;
    while j < nn
        invariant
            j <= nn,
            forall|p: Seq<char>|
                match #[trigger] namespaces.spec_get(p) {
                    Some(u) => exists|k: int|
                        0 <= k < j && #[trigger] attr_trim(nss_spec[k], "uri"@).len() > 0
                            && attr_trim(nss_spec[k], "prefix"@) == p && attr_trim(
                            nss_spec[k],
                            "uri"@,
                        ) == u@,
                    None => forall|k: int|
                        0 <= k < j ==> !(#[trigger] attr_trim(nss_spec[k], "uri"@).len() > 0
                            && attr_trim(nss_spec[k], "prefix"@) == p),
                },
        decreases nn - j,
    {
        let prefix = attr_trimmed(nss[j], "prefix");
        let uri = attr_trimmed(nss[j], "uri");
        if uri.unicode_len() > 0 {
            let ghost before = namespaces;
            let ghost pv = prefix@;
            let ghost uv = uri@;
            namespaces.insert(prefix, uri);
            proof {
                assert forall|p: Seq<char>|
                    match #[trigger] namespaces.spec_get(p) {
                        Some(u) => exists|k: int|
                            0 <= k < j + 1 && #[trigger] attr_trim(nss_spec[k], "uri"@).len() > 0
                                && attr_trim(nss_spec[k], "prefix"@) == p && attr_trim(
                                nss_spec[k],
                                "uri"@,
                            ) == u@,
                        None => forall|k: int|
                            0 <= k < j + 1 ==> !(#[trigger] attr_trim(nss_spec[k], "uri"@).len()
                                > 0 && attr_trim(nss_spec[k], "prefix"@) == p),
                    } by {
                    if p == pv {
                        assert(namespaces.spec_get(p) is Some && namespaces.spec_get(
                            p,
                        )->Some_0@ == uv);
                        assert(attr_trim(nss_spec[j as int], "uri"@).len() > 0 && attr_trim(
                            nss_spec[j as int],
                            "prefix"@,
                        ) == p && attr_trim(nss_spec[j as int], "uri"@) == uv);
                    } else {
                        assert(namespaces.spec_get(p) == before.spec_get(p));
                        match namespaces.spec_get(p) {
                            Some(u) => {},
                            None => {
                                assert forall|k: int|
                                    0 <= k < j + 1 implies !(#[trigger] attr_trim(
                                    nss_spec[k],
                                    "uri"@,
                                ).len() > 0 && attr_trim(nss_spec[k], "prefix"@) == p) by {
                                    if k == j {
                                        assert(attr_trim(nss_spec[k], "prefix"@) == pv);
                                    }
                                }
                            },
                        }
                    }
                }
            }
        } else {
            proof {
                assert forall|p: Seq<char>|
                    match #[trigger] namespaces.spec_get(p) {
                        Some(u) => exists|k: int|
                            0 <= k < j + 1 && #[trigger] attr_trim(nss_spec[k], "uri"@).len() > 0
                                && attr_trim(nss_spec[k], "prefix"@) == p && attr_trim(
                                nss_spec[k],
                                "uri"@,
                            ) == u@,
                        None => forall|k: int|
                            0 <= k < j + 1 ==> !(#[trigger] attr_trim(nss_spec[k], "uri"@).len()
                                > 0 && attr_trim(nss_spec[k], "prefix"@) == p),
                    } by {
                    match namespaces.spec_get(p) {
                        Some(u) => {},
                        None => {
                            assert forall|k: int|
                                0 <= k < j + 1 implies !(#[trigger] attr_trim(
                                nss_spec[k],
                                "uri"@,
                            ).len() > 0 && attr_trim(nss_spec[k], "prefix"@) == p) by {
                                if k == j {
                                    assert(attr_trim(nss_spec[k], "uri"@).len() == 0);
                                }
                            }
                        },
                    }
                }
            }
        }
        j = j + 1;
    }
    Environment {
        name: name_opt,
        sources,
        namespaces,
        params: Vec::new(),
        schemas: Vec::new(),
        collections: Vec::new(),
        static_base_uri: None,
    }
}

/// Whether some element of `es` declares this nonempty environment name.
pub open spec fn env_named_exists(es: Seq<XmlElement>, nm: Seq<char>) -> bool {
    nm.len() > 0 && exists|k: int| 0 <= k < es.len() && attr_trim(es[k], "name"@) == nm
}

/// Parse each element as an environment and bind the named ones in a map,
/// later declarations of a name replacing earlier ones.
#[verifier::loop_isolation(false)]
#[verifier::rlimit(60)]
pub fn build_env_map(elems: &Vec<&XmlElement>, base_dir: &str) -> (r: NameMap<Environment>)
    ensures
        forall|nm: Seq<char>|
            #[trigger] r.spec_get(nm) matches Some(env) ==> exists|k: int|
                0 <= k < elems@.len() && #[trigger] attr_trim(*elems@[k], "name"@) == nm
                    && nm.len() > 0 && env_parses(*elems@[k], base_dir@, env),
        forall|nm: Seq<char>| env_named_exists(seqs_of(elems@), nm) ==> r.spec_get(nm) is Some,
{
    let mut r: NameMap<Environment> = NameMap::new();
    let n: usize = elems.len();
    let mut i: usize = 0;
    while i < n
        invariant
            i <= n,
            forall|nm: Seq<char>|
                #[trigger] r.spec_get(nm) matches Some(env) ==> exists|k: int|
                    0 <= k < i && #[trigger] attr_trim(*elems@[k], "name"@) == nm && nm.len() > 0
                        && env_parses(*elems@[k], base_dir@, env),
            forall|nm: Seq<char>|
                nm.len() > 0 && (exists|k: int|
                    0 <= k < i && #[trigger] attr_trim(*elems@[k], "name"@) == nm)
                    ==> r.spec_get(nm) is Some,
        decreases n - i,
    {
        let env = parse_environment(elems[i], base_dir);
        let key_opt: Option<String> = match &env.name {
            Some(nm) => Some(nm.clone()),
            None => None,
        };
        let ghost before = r;
        match key_opt {
            Some(key) => {
                let ghost kv = key@;
                r.insert(key, env);
                proof {
                    assert(attr_trim(*elems@[i as int], "name"@) == kv && kv.len() > 0) by {
                        reveal(env_parses);
                    }
                    assert forall|nm: Seq<char>| #[trigger] r.spec_get(nm) matches Some(env2)
                        implies (exists|k: int|
                        0 <= k < i + 1 && #[trigger] attr_trim(*elems@[k], "name"@) == nm
                            && nm.len() > 0 && env_parses(*elems@[k], base_dir@, (r.spec_get(
                        nm,
                    )->Some_0))) by {
                        if nm == kv {
                            assert(r.spec_get(nm) == Some(env));
                            assert(attr_trim(*elems@[i as int], "name"@) == nm);
                        } else {
                            assert(r.spec_get(nm) == before.spec_get(nm));
                        }
                    }
                    assert forall|nm: Seq<char>|
                        nm.len() > 0 && (exists|k: int|
                            0 <= k < i + 1 && #[trigger] attr_trim(*elems@[k], "name"@)
                                == nm) implies r.spec_get(nm) is Some by {
                        if nm != kv {
                            assert(r.spec_get(nm) == before.spec_get(nm));
                            let k = choose|k: int|
                                0 <= k < i + 1 && attr_trim(*elems@[k], "name"@) == nm;
                            assert(k < i);
                        }
                    }
                }
            },
            None => {
                proof {
                    assert(attr_trim(*elems@[i as int], "name"@).len() == 0) by {
                        reveal(env_parses);
                    }
                    assert forall|nm: Seq<char>|
                        nm.len() > 0 && (exists|k: int|
                            0 <= k < i + 1 && #[trigger] attr_trim(*elems@[k], "name"@)
                                == nm) implies r.spec_get(nm) is Some by {
                        let k = choose|k: int|
                            0 <= k < i + 1 && attr_trim(*elems@[k], "name"@) == nm;
                        assert(k < i);
                    }
                }
            },
        }
        i = i + 1;
    }
    r
}

} // verus!

verus! {

use crate::strutil::parse_dec_spec;
use crate::xml::{first_named, first_named_child, text_trim, text_trimmed};

/// The element names the assertion parser understands.
pub open spec fn known_assertion_name(n: Seq<char>) -> bool {
    ||| n == "all-of"@
    ||| n == "any-of"@
    ||| n == "not"@
    ||| n == "assert-eq"@
    ||| n == "assert-true"@
    ||| n == "assert-false"@
    ||| n == "assert-empty"@
    ||| n == "assert-count"@
    ||| n == "assert-type"@
    ||| n == "assert-string-value"@
    ||| n == "error"@
    ||| n == "assert-xml"@
    ||| n == "assert"@
    ||| n == "assert-deep-eq"@
    ||| n == "assert-permutation"@
    ||| n == "serialization-matches"@
}

/// Whether a child node yields a nested assertion: it must be an element
/// with a known name, and a `not` element must itself hold one.
pub open spec fn kept_child(n: XmlNode) -> bool
    decreases n, 0int,
{
    match n {
        XmlNode::Text(_) => false,
        XmlNode::Element(e) => known_assertion_name(e.name@) && (e.name@ != "not"@ || kept_count(
            e.children@,
        ) > 0),
    }
}

/// How many children of a list yield nested assertions.
pub open spec fn kept_count(cs: Seq<XmlNode>) -> nat
    decreases cs, 1int,
{
    if cs.len() == 0 {
        0
    } else {
        (if kept_child(cs[0]) {
            1nat
        } else {
            0nat
        }) + kept_count(cs.skip(1))
    }
}

/// The elements among the first `i` children that yield nested assertions.
pub open spec fn kept_children_upto(cs: Seq<XmlNode>, i: int) -> Seq<XmlElement>
    decreases i,
{
    if i <= 0 {
        Seq::empty()
    } else {
        kept_children_upto(cs, i - 1) + (if kept_child(cs[i - 1]) {
            seq![cs[i - 1]->Element_0]
        } else {
            Seq::empty()
        })
    }
}

/// The child elements of `e` that yield nested assertions, in order.
pub open spec fn kept_children(e: XmlElement) -> Seq<XmlElement> {
    kept_children_upto(e.children@, e.children@.len() as int)
}

/// The kept prefix and the remaining count partition the total count.
proof fn lemma_kept_partition(cs: Seq<XmlNode>, i: int)
    requires
        0 <= i <= cs.len(),
    ensures
        kept_children_upto(cs, i).len() + kept_count(cs.skip(i)) == kept_count(cs),
    decreases i,
{
    if i == 0 {
        assert(cs.skip(0) =~= cs);
    } else {
        lemma_kept_partition(cs, i - 1);
        assert(cs.skip(i - 1)[0] == cs[i - 1]);
        assert(cs.skip(i - 1).skip(1) =~= cs.skip(i));
    }
}

/// The value an `assert-count` element carries in a nested position: its
/// text as a number, or zero where the text is not a number that fits.
pub open spec fn count_or_zero(t: Seq<char>) -> nat {
    match parse_dec_spec(t) {
        Some(v) => if v <= usize::MAX {
            v
        } else {
            0
        },
        None => 0,
    }
}

/// Whether an `assert-count` element in the top position carries a usable
/// number; one that does not is passed over.
pub open spec fn count_parse_ok(t: Seq<char>) -> bool {
    parse_dec_spec(t) matches Some(v) && v <= usize::MAX
}

/// How one kept child element reads as a nested assertion.
pub open spec fn nested_assertion_parses(e: XmlElement, a: Assertion) -> bool
    decreases a, 1int,
{
    if e.name@ == "all-of"@ {
        a matches Assertion::AllOf(list) && list_parses(kept_children(e), list@)
    } else if e.name@ == "any-of"@ {
        a matches Assertion::AnyOf(list) && list_parses(kept_children(e), list@)
    } else if e.name@ == "not"@ {
        a matches Assertion::Not(inner) && kept_children(e).len() > 0 && nested_assertion_parses(
            kept_children(e)[0],
            *inner,
        )
    } else if e.name@ == "assert-eq"@ {
        a matches Assertion::AssertEq(v) && v@ == text_trim(e)
    } else if e.name@ == "assert-true"@ {
        a is AssertTrue
    } else if e.name@ == "assert-false"@ {
        a is AssertFalse
    } else if e.name@ == "assert-empty"@ {
        a is AssertEmpty
    } else if e.name@ == "assert-count"@ {
        a matches Assertion::AssertCount(n) && n == count_or_zero(text_trim(e))
    } else if e.name@ == "assert-type"@ {
        a matches Assertion::AssertType(v) && v@ == text_trim(e)
    } else if e.name@ == "assert-string-value"@ {
        a matches Assertion::AssertStringValue { value, normalize_space } && value@ == text_trim(e)
            && normalize_space == (attr_trim(e, "normalize-space"@) == "true"@)
    } else if e.name@ == "error"@ {
        a matches Assertion::Error(code) && code@ == attr_trim(e, "code"@)
    } else if e.name@ == "assert-xml"@ {
        a matches Assertion::AssertXml { xml, file, ignore_prefixes } && (match xml {
            Some(x) => text_trim(e).len() > 0 && x@ == text_trim(e),
            None => text_trim(e).len() == 0,
        }) && (match file {
            Some(f) => attr_trim(e, "file"@).len() > 0 && f@ == attr_trim(e, "file"@),
            None => attr_trim(e, "file"@).len() == 0,
        }) && ignore_prefixes == (attr_trim(e, "ignore-prefixes"@) == "true"@)
    } else if e.name@ == "assert"@ {
        a matches Assertion::Assert(v) && v@ == text_trim(e)
    } else if e.name@ == "assert-deep-eq"@ {
        a matches Assertion::AssertDeepEq(v) && v@ == text_trim(e)
    } else if e.name@ == "assert-permutation"@ {
        a matches Assertion::AssertPermutation(v) && v@ == text_trim(e)
    } else if e.name@ == "serialization-matches"@ {
        a matches Assertion::SerializationMatches { regex, file, flags } && (match regex {
            Some(x) => text_trim(e).len() > 0 && x@ == text_trim(e),
            None => text_trim(e).len() == 0,
        }) && (match file {
            Some(f) => attr_trim(e, "file"@).len() > 0 && f@ == attr_trim(e, "file"@),
            None => attr_trim(e, "file"@).len() == 0,
        }) && (match flags {
            Some(f) => attr_trim(e, "flags"@).len() > 0 && f@ == attr_trim(e, "flags"@),
            None => attr_trim(e, "flags"@).len() == 0,
        })
    } else {
        false
    }
}

/// How a list of kept elements reads as a list of nested assertions.
pub open spec fn list_parses(kept: Seq<XmlElement>, list: Seq<Assertion>) -> bool
    decreases list, 0int,
{
    if list.len() == 0 {
        kept.len() == 0
    } else {
        kept.len() == list.len() && nested_assertion_parses(kept[0], list[0]) && list_parses(
            kept.skip(1),
            list.skip(1),
        )
    }
}

/// Lists that parse each other have the same length.
proof fn lemma_list_parses_len(kept: Seq<XmlElement>, list: Seq<Assertion>)
    requires
        list_parses(kept, list),
    ensures
        kept.len() == list.len(),
{
}

/// A parsed pair appended to parsed lists keeps them parsed.
proof fn lemma_list_parses_push(
    kept: Seq<XmlElement>,
    list: Seq<Assertion>,
    e: XmlElement,
    a: Assertion,
)
    requires
        list_parses(kept, list),
        nested_assertion_parses(e, a),
    ensures
        list_parses(kept.push(e), list.push(a)),
    decreases list.len(),
{
    if list.len() == 0 {
        assert(kept.len() == 0);
        assert(kept.push(e)[0] == e);
        assert(list.push(a)[0] == a);
        assert(kept.push(e).skip(1) =~= Seq::<XmlElement>::empty());
        assert(list.push(a).skip(1) =~= Seq::<Assertion>::empty());
        assert(list_parses(Seq::<XmlElement>::empty(), Seq::<Assertion>::empty()));
        assert(list_parses(kept.push(e).skip(1), list.push(a).skip(1)));
    } else {
        lemma_list_parses_push(kept.skip(1), list.skip(1), e, a);
        assert(kept.push(e).skip(1) =~= kept.skip(1).push(e));
        assert(list.push(a).skip(1) =~= list.skip(1).push(a));
        assert(kept.push(e)[0] == kept[0]);
        assert(list.push(a)[0] == list[0]);
        assert(list_parses(kept.push(e).skip(1), list.push(a).skip(1)));
    }
}

/// The assertion element names of equal length are distinct.
proof fn lemma_assertion_names_distinct()
    ensures
        "all-of"@ != "any-of"@,
        "all-of"@ != "assert"@,
        "any-of"@ != "assert"@,
        "assert-true"@ != "assert-type"@,
        "assert-false"@ != "assert-empty"@,
        "assert-false"@ != "assert-count"@,
        "assert-empty"@ != "assert-count"@,
        "all-of"@ != "not"@,
        "any-of"@ != "not"@,
        "all-of"@.len() == 6 && "any-of"@.len() == 6 && "not"@.len() == 3 && "assert-eq"@.len()
            == 9 && "assert"@.len() == 6 && "assert-true"@.len() == 11 && "assert-type"@.len()
            == 11 && "assert-false"@.len() == 12 && "assert-empty"@.len() == 12
            && "assert-count"@.len() == 12 && "assert-string-value"@.len() == 19
            && "error"@.len() == 5 && "assert-xml"@.len() == 10 && "assert-deep-eq"@.len() == 14
            && "assert-permutation"@.len() == 18 && "serialization-matches"@.len() == 21,
{
    reveal_strlit("all-of");
    reveal_strlit("any-of");
    reveal_strlit("not");
    reveal_strlit("assert-eq");
    reveal_strlit("assert");
    reveal_strlit("assert-true");
    reveal_strlit("assert-type");
    reveal_strlit("assert-false");
    reveal_strlit("assert-empty");
    reveal_strlit("assert-count");
    reveal_strlit("assert-string-value");
    reveal_strlit("error");
    reveal_strlit("assert-xml");
    reveal_strlit("assert-deep-eq");
    reveal_strlit("assert-permutation");
    reveal_strlit("serialization-matches");
    assert("all-of"@[1] == 'l' && "any-of"@[1] == 'n' && "assert"@[1] == 's');
    assert("assert-true"@[8] == 'r' && "assert-type"@[8] == 'y');
    assert("assert-false"@[7] == 'f' && "assert-empty"@[7] == 'e' && "assert-count"@[7] == 'c');
}

/// Read one child element as a nested assertion, where it carries one.
#[verifier::loop_isolation(false)]
fn parse_one_nested(c: &XmlElement) -> (r: Option<Assertion>)
    ensures
        match r {
            Some(a) => known_assertion_name(c.name@) && (c.name@ != "not"@ || kept_count(
                c.children@,
            ) > 0) && nested_assertion_parses(*c, a),
            None => !(known_assertion_name(c.name@) && (c.name@ != "not"@ || kept_count(
                c.children@,
            ) > 0)),
        },
    decreases *c, 1int,
{
    proof {
        lemma_assertion_names_distinct();
    }
    if crate::strutil::str_eq(c.name.as_str(), "all-of") {
        let nested = parse_nested_assertions(c);
        proof {
            assert(known_assertion_name(c.name@));
            assert(c.name@ != "not"@);
            assert(list_parses(kept_children(*c), nested@));
            assert(nested_assertion_parses(*c, Assertion::AllOf(nested)));
        }
        return Some(Assertion::AllOf(nested));
    }
    if crate::strutil::str_eq(c.name.as_str(), "any-of") {
        let nested = parse_nested_assertions(c);
        proof {
            assert(nested_assertion_parses(*c, Assertion::AnyOf(nested)));
        }
        return Some(Assertion::AnyOf(nested));
    }
    if crate::strutil::str_eq(c.name.as_str(), "not") {
        let mut nested = parse_nested_assertions(c);
        proof {
            lemma_list_parses_len(kept_children(*c), nested@);
            lemma_kept_partition(c.children@, c.children@.len() as int);
            assert(c.children@.skip(c.children@.len() as int) =~= Seq::<XmlNode>::empty());
        }
        if nested.len() > 0 {
            let first = nested.remove(0);
            return Some(Assertion::Not(Box::new(first)));
        } else {
            return None;
        }
    }
    if crate::strutil::str_eq(c.name.as_str(), "assert-eq") {
        return Some(Assertion::AssertEq(text_trimmed(c)));
    }
    if crate::strutil::str_eq(c.name.as_str(), "assert-true") {
        return Some(Assertion::AssertTrue);
    }
    if crate::strutil::str_eq(c.name.as_str(), "assert-false") {
        return Some(Assertion::AssertFalse);
    }
    if crate::strutil::str_eq(c.name.as_str(), "assert-empty") {
        return Some(Assertion::AssertEmpty);
    }
    if crate::strutil::str_eq(c.name.as_str(), "assert-count") {
        let t = text_trimmed(c);
        let v: usize = match crate::strutil::parse_u64(t.as_str()) {
            Some(v) => if v <= usize::MAX as u64 {
                v as usize
            } else {
                0
            },
            None => 0,
        };
        return Some(Assertion::AssertCount(v));
    }
    if crate::strutil::str_eq(c.name.as_str(), "assert-type") {
        return Some(Assertion::AssertType(text_trimmed(c)));
    }
    if crate::strutil::str_eq(c.name.as_str(), "assert-string-value") {
        let norm = attr_trimmed(c, "normalize-space");
        return Some(
            Assertion::AssertStringValue {
                value: text_trimmed(c),
                normalize_space: crate::strutil::str_eq(norm.as_str(), "true"),
            },
        );
    }
    if crate::strutil::str_eq(c.name.as_str(), "error") {
        return Some(Assertion::Error(attr_trimmed(c, "code")));
    }
    if crate::strutil::str_eq(c.name.as_str(), "assert-xml") {
        let xml = text_trimmed(c);
        let file = attr_trimmed(c, "file");
        let ignore = attr_trimmed(c, "ignore-prefixes");
        return Some(
            Assertion::AssertXml {
                xml: if xml.unicode_len() == 0 {
                    None
                } else {
                    Some(xml)
                },
                file: if file.unicode_len() == 0 {
                    None
                } else {
                    Some(file)
                },
                ignore_prefixes: crate::strutil::str_eq(ignore.as_str(), "true"),
            },
        );
    }
    if crate::strutil::str_eq(c.name.as_str(), "assert") {
        return Some(Assertion::Assert(text_trimmed(c)));
    }
    if crate::strutil::str_eq(c.name.as_str(), "assert-deep-eq") {
        return Some(Assertion::AssertDeepEq(text_trimmed(c)));
    }
    if crate::strutil::str_eq(c.name.as_str(), "assert-permutation") {
        return Some(Assertion::AssertPermutation(text_trimmed(c)));
    }
    if crate::strutil::str_eq(c.name.as_str(), "serialization-matches") {
        let regex = text_trimmed(c);
        let file = attr_trimmed(c, "file");
        let flags = attr_trimmed(c, "flags");
        return Some(
            Assertion::SerializationMatches {
                regex: if regex.unicode_len() == 0 {
                    None
                } else {
                    Some(regex)
                },
                file: if file.unicode_len() == 0 {
                    None
                } else {
                    Some(file)
                },
                flags: if flags.unicode_len() == 0 {
                    None
                } else {
                    Some(flags)
                },
            },
        );
    }
    None
}

/// Read the nested assertions out of a container element, in document order;
/// children that carry no assertion are passed over.
#[verifier::loop_isolation(false)]
pub fn parse_nested_assertions(elem: &XmlElement) -> (r: Vec<Assertion>)
    ensures
        list_parses(kept_children(*elem), r@),
    decreases *elem, 0int,
{
    let mut out: Vec<Assertion> = Vec::new();
    let n: usize = elem.children.len();
    let mut i: usize = 0;
    while i < n
        invariant
            i <= n,
            list_parses(kept_children_upto(elem.children@, i as int), out@),
        decreases n - i,
    {
        let ghost kept_before = kept_children_upto(elem.children@, i as int);
        match &elem.children[i] {
            XmlNode::Text(_) => {
                proof {
                    assert(kept_children_upto(elem.children@, i + 1) =~= kept_before);
                }
            },
            XmlNode::Element(c) => {
                match parse_one_nested(c) {
                    Some(a) => {
                        proof {
                            assert(kept_child(elem.children@[i as int]));
                            assert(kept_children_upto(elem.children@, i + 1) =~= kept_before.push(
                                *c,
                            ));
                            lemma_list_parses_push(kept_before, out@, *c, a);
                        }
                        out.push(a);
                    },
                    None => {
                        proof {
                            assert(!kept_child(elem.children@[i as int]));
                            assert(kept_children_upto(elem.children@, i + 1) =~= kept_before);
                        }
                    },
                }
            },
        }
        i = i + 1;
    }
    proof {
        assert(kept_children_upto(elem.children@, n as int) == kept_children(*elem));
    }
    out
}

/// How a `result` element reads as the expected-result tree: the first
/// recognized construct wins, in a fixed priority order; a result with no
/// recognized construct reads as the empty conjunction, which passes.
pub open spec fn top_assertion_parses(res: XmlElement, a: Assertion) -> bool {
    if first_named(res, "all-of"@) is Some {
        a matches Assertion::AllOf(list) && list_parses(
            kept_children(first_named(res, "all-of"@)->Some_0),
            list@,
        )
    } else if first_named(res, "any-of"@) is Some {
        a matches Assertion::AnyOf(list) && list_parses(
            kept_children(first_named(res, "any-of"@)->Some_0),
            list@,
        )
    } else if first_named(res, "assert-eq"@) is Some {
        a matches Assertion::AssertEq(v) && v@ == text_trim(first_named(res, "assert-eq"@)->Some_0)
    } else if first_named(res, "assert-true"@) is Some {
        a is AssertTrue
    } else if first_named(res, "assert-false"@) is Some {
        a is AssertFalse
    } else if first_named(res, "assert-empty"@) is Some {
        a is AssertEmpty
    } else if first_named(res, "assert-count"@) is Some && count_parse_ok(
        text_trim(first_named(res, "assert-count"@)->Some_0),
    ) {
        a matches Assertion::AssertCount(n) && n as nat == parse_dec_spec(
            text_trim(first_named(res, "assert-count"@)->Some_0),
        )->Some_0
    } else if first_named(res, "assert-type"@) is Some {
        a matches Assertion::AssertType(v) && v@ == text_trim(
            first_named(res, "assert-type"@)->Some_0,
        )
    } else if first_named(res, "assert-string-value"@) is Some {
        a matches Assertion::AssertStringValue { value, normalize_space } && value@ == text_trim(
            first_named(res, "assert-string-value"@)->Some_0,
        ) && normalize_space == (attr_trim(
            first_named(res, "assert-string-value"@)->Some_0,
            "normalize-space"@,
        ) == "true"@)
    } else if first_named(res, "error"@) is Some && attr_trim(
        first_named(res, "error"@)->Some_0,
        "code"@,
    ).len() > 0 {
        a matches Assertion::Error(code) && code@ == attr_trim(
            first_named(res, "error"@)->Some_0,
            "code"@,
        )
    } else if first_named(res, "assert-xml"@) is Some {
        a matches Assertion::AssertXml { xml, file, ignore_prefixes } && (match xml {
            Some(x) => text_trim(first_named(res, "assert-xml"@)->Some_0).len() > 0 && x@
                == text_trim(first_named(res, "assert-xml"@)->Some_0),
            None => text_trim(first_named(res, "assert-xml"@)->Some_0).len() == 0,
        }) && (match file {
            Some(f) => attr_trim(first_named(res, "assert-xml"@)->Some_0, "file"@).len() > 0 && f@
                == attr_trim(first_named(res, "assert-xml"@)->Some_0, "file"@),
            None => attr_trim(first_named(res, "assert-xml"@)->Some_0, "file"@).len() == 0,
        }) && ignore_prefixes == (attr_trim(
            first_named(res, "assert-xml"@)->Some_0,
            "ignore-prefixes"@,
        ) == "true"@)
    } else if first_named(res, "assert"@) is Some {
        a matches Assertion::Assert(v) && v@ == text_trim(first_named(res, "assert"@)->Some_0)
    } else if first_named(res, "assert-deep-eq"@) is Some {
        a matches Assertion::AssertDeepEq(v) && v@ == text_trim(
            first_named(res, "assert-deep-eq"@)->Some_0,
        )
    } else if first_named(res, "assert-permutation"@) is Some {
        a matches Assertion::AssertPermutation(v) && v@ == text_trim(
            first_named(res, "assert-permutation"@)->Some_0,
        )
    } else {
        a matches Assertion::AllOf(list) && list@.len() == 0
    }
}

/// Read the expected-result tree out of a `result` element.
pub fn parse_assertion(res: &XmlElement) -> (a: Assertion)
    ensures
        top_assertion_parses(*res, a),
{
    if let Some(c) = first_named_child(res, "all-of") {
        return Assertion::AllOf(parse_nested_assertions(c));
    }
    if let Some(c) = first_named_child(res, "any-of") {
        return Assertion::AnyOf(parse_nested_assertions(c));
    }
    if let Some(c) = first_named_child(res, "assert-eq") {
        return Assertion::AssertEq(text_trimmed(c));
    }
    if let Some(_c) = first_named_child(res, "assert-true") {
        return Assertion::AssertTrue;
    }
    if let Some(_c) = first_named_child(res, "assert-false") {
        return Assertion::AssertFalse;
    }
    if let Some(_c) = first_named_child(res, "assert-empty") {
        return Assertion::AssertEmpty;
    }
    let count_parsed: Option<usize> = match first_named_child(res, "assert-count") {
        Some(c) => {
            let t = text_trimmed(c);
            match crate::strutil::parse_u64(t.as_str()) {
                Some(v) => if v <= usize::MAX as u64 {
                    Some(v as usize)
                } else {
                    None
                },
                None => None,
            }
        },
        None => None,
    };
    if let Some(v) = count_parsed {
        return Assertion::AssertCount(v);
    }
    if let Some(c) = first_named_child(res, "assert-type") {
        return Assertion::AssertType(text_trimmed(c));
    }
    if let Some(c) = first_named_child(res, "assert-string-value") {
        let norm = attr_trimmed(c, "normalize-space");
        return Assertion::AssertStringValue {
            value: text_trimmed(c),
            normalize_space: crate::strutil::str_eq(norm.as_str(), "true"),
        };
    }
    let error_code: Option<String> = match first_named_child(res, "error") {
        Some(c) => {
            let code = attr_trimmed(c, "code");
            if code.unicode_len() > 0 {
                Some(code)
            } else {
                None
            }
        },
        None => None,
    };
    if let Some(code) = error_code {
        return Assertion::Error(code);
    }
    if let Some(c) = first_named_child(res, "assert-xml") {
        let xml = text_trimmed(c);
        let file = attr_trimmed(c, "file");
        let ignore = attr_trimmed(c, "ignore-prefixes");
        return Assertion::AssertXml {
            xml: if xml.unicode_len() == 0 {
                None
            } else {
                Some(xml)
            },
            file: if file.unicode_len() == 0 {
                None
            } else {
                Some(file)
            },
            ignore_prefixes: crate::strutil::str_eq(ignore.as_str(), "true"),
        };
    }
    if let Some(c) = first_named_child(res, "assert") {
        return Assertion::Assert(text_trimmed(c));
    }
    if let Some(c) = first_named_child(res, "assert-deep-eq") {
        return Assertion::AssertDeepEq(text_trimmed(c));
    }
    if let Some(c) = first_named_child(res, "assert-permutation") {
        return Assertion::AssertPermutation(text_trimmed(c));
    }
    Assertion::AllOf(Vec::new())
}

} // verus!

verus! {

use crate::xml::element_descendants;
use crate::xml::element_descendants_spec;

/// How one `dependency` element reads as a [`Dependency`]: the satisfied
/// flag defaults to true unless the attribute says `false`.
pub open spec fn dep_parses(e: XmlElement, dep: Dependency) -> bool {
    &&& dep.dep_type@ == attr_trim(e, "type"@)
    &&& dep.value@ == attr_trim(e, "value"@)
    &&& dep.satisfied == (attr_trim(e, "satisfied"@) != "false"@)
}

/// The `dependency` elements kept by the parser: those naming a type.
pub open spec fn kept_deps_upto(cs: Seq<XmlElement>, i: int) -> Seq<XmlElement>
    decreases i,
{
    if i <= 0 {
        Seq::empty()
    } else {
        kept_deps_upto(cs, i - 1) + (if attr_trim(cs[i - 1], "type"@).len() > 0 {
            seq![cs[i - 1]]
        } else {
            Seq::empty()
        })
    }
}

/// How one `test-case` element reads as a [`TestCase`]: name, description,
/// environment reference (a nonempty `ref` names one, else a present child
/// is inline), the expression under test, the expected-result tree, and the
/// type-bearing dependencies.
#[verifier::opaque]
pub open spec fn test_case_parses(e: XmlElement, base: Seq<char>, tc: TestCase) -> bool {
    let deps = named_children_spec(e, "dependency"@);
    let kd = kept_deps_upto(deps, deps.len() as int);
    &&& tc.name@ == attr_trim(e, "name"@)
    &&& tc.description@ == (match first_named(e, "description"@) {
        Some(d) => text_trim(d),
        None => Seq::empty(),
    })
    &&& (match first_named(e, "environment"@) {
        None => tc.environment is None,
        Some(c) => {
            if attr_trim(c, "ref"@).len() > 0 {
                tc.environment matches Some(EnvironmentRef::Named(nm)) && nm@ == attr_trim(
                    c,
                    "ref"@,
                )
            } else {
                tc.environment matches Some(EnvironmentRef::Inline(env)) && env_parses(
                    c,
                    base,
                    env,
                )
            }
        },
    })
    &&& tc.test@ == (match first_named(e, "test"@) {
        Some(t) => text_trim(t),
        None => Seq::empty(),
    })
    &&& (match first_named(e, "result"@) {
        Some(res) => top_assertion_parses(res, tc.result),
        None => tc.result matches Assertion::AllOf(l) && l@.len() == 0,
    })
    &&& tc.dependencies@.len() == kd.len()
    &&& (forall|k: int|
        0 <= k < kd.len() ==> dep_parses(kd[k], #[trigger] tc.dependencies@[k]))
}

/// Read one `test-case` element.
#[verifier::loop_isolation(false)]
pub fn parse_test_case(e: &XmlElement, base_dir: &str) -> (tc: TestCase)
    ensures
        test_case_parses(*e, base_dir@, tc),
{
    proof {
        reveal(test_case_parses);
    }
    let name = attr_trimmed(e, "name");
    let description = match first_named_child(e, "description") {
        Some(d) => text_trimmed(d),
        None => String::new(),
    };
    let environment: Option<EnvironmentRef> = match first_named_child(e, "environment") {
        None => None,
        Some(c) => {
            let env_ref = attr_trimmed(c, "ref");
            if env_ref.unicode_len() > 0 {
                Some(EnvironmentRef::Named(env_ref))
            } else {
                Some(EnvironmentRef::Inline(parse_environment(c, base_dir)))
            }
        },
    };
    let test = match first_named_child(e, "test") {
        Some(t) => text_trimmed(t),
        None => String::new(),
    };
    let result = match first_named_child(e, "result") {
        Some(res) => parse_assertion(res),
        None => Assertion::AllOf(Vec::new()),
    };
    let dep_elems = named_children(e, "dependency");
    let ghost deps_spec = named_children_spec(*e, "dependency"@);
    let mut dependencies: Vec<Dependency> = Vec::new();
    let dn: usize = dep_elems.len();
    let mut i: usize = 0;
    while i < dn
        invariant
            i <= dn,
            dependencies@.len() == kept_deps_upto(deps_spec, i as int).len(),
            forall|k: int|
                0 <= k < dependencies@.len() ==> dep_parses(
                    kept_deps_upto(deps_spec, i as int)[k],
                    #[trigger] dependencies@[k],
                ),
        decreases dn - i,
    {
        let ghost kept_before = kept_deps_upto(deps_spec, i as int);
        let dep_type = attr_trimmed(dep_elems[i], "type");
        if dep_type.unicode_len() > 0 {
            let value = attr_trimmed(dep_elems[i], "value");
            let satisfied_str = attr_trimmed(dep_elems[i], "satisfied");
            let satisfied = !crate::strutil::str_eq(satisfied_str.as_str(), "false");
            let dep = Dependency { dep_type, value, satisfied };
            proof {
                assert(dep_parses(deps_spec[i as int], dep));
                assert(kept_deps_upto(deps_spec, i + 1) =~= kept_before.push(
                    deps_spec[i as int],
                ));
            }
            dependencies.push(dep);
        } else {
            proof {
                assert(kept_deps_upto(deps_spec, i + 1) =~= kept_before);
            }
        }
        i = i + 1;
    }
    TestCase { name, description, environment, dependencies, test, result }
}

/// How a whole test-set document reads as a [`TestSet`]: the root's name
/// where the root is a `test-set`, an empty set-wide dependency list, the
/// local environment map bound exactly from the root's named `environment`
/// children, and one parsed test case per `test-case` descendant, in
/// document order.
pub open spec fn test_set_read_from(doc: XmlElement, base: Seq<char>, r: TestSet) -> bool {
    &&& r.name@ == (if doc.name@ == "test-set"@ {
        attr_trim(doc, "name"@)
    } else {
        Seq::<char>::empty()
    })
    &&& r.dependencies@.len() == 0
    &&& (forall|nm: Seq<char>|
        #[trigger] r.environments.spec_get(nm) matches Some(env) ==> doc.name@ == "test-set"@
            && exists|k: int|
            0 <= k < named_children_spec(doc, "environment"@).len() && #[trigger] attr_trim(
                named_children_spec(doc, "environment"@)[k],
                "name"@,
            ) == nm && nm.len() > 0 && env_parses(
            named_children_spec(doc, "environment"@)[k],
            base,
            env,
        ))
    &&& (doc.name@ == "test-set"@ ==> forall|nm: Seq<char>|
        env_named_exists(named_children_spec(doc, "environment"@), nm)
            ==> r.environments.spec_get(nm) is Some)
    &&& r.test_cases@.len() == element_descendants_spec(doc, "test-case"@).len()
    &&& (forall|k: int|
        0 <= k < r.test_cases@.len() ==> test_case_parses(
            element_descendants_spec(doc, "test-case"@)[k],
            base,
            #[trigger] r.test_cases@[k],
        ))
}

/// Read a test-set document: its name, its local environments, and every
/// test case it holds, in document order.  The set-wide dependency list of
/// the data model is not populated from the QT3 documents.
#[verifier::loop_isolation(false)]
pub fn parse_test_set(doc: &XmlElement, base_dir: &str) -> (r: TestSet)
    ensures
        test_set_read_from(*doc, base_dir@, r),
{
    let name: String = if crate::strutil::str_eq(doc.name.as_str(), "test-set") {
        attr_trimmed(doc, "name")
    } else {
        String::new()
    };
    let environments: NameMap<Environment> = if crate::strutil::str_eq(
        doc.name.as_str(),
        "test-set",
    ) {
        let env_elems = named_children(doc, "environment");
        proof {
            assert(seqs_of(env_elems@) =~= named_children_spec(*doc, "environment"@));
        }
        build_env_map(&env_elems, base_dir)
    } else {
        NameMap::new()
    };
    let tc_elems = element_descendants(doc, "test-case");
    let ghost tcs_spec = element_descendants_spec(*doc, "test-case"@);
    let mut test_cases: Vec<TestCase> = Vec::new();
    let n: usize = tc_elems.len();
    let mut i: usize = 0;
    while i < n
        invariant
            i <= n,
            test_cases@.len() == i,
            forall|k: int|
                0 <= k < i ==> test_case_parses(
                    tcs_spec[k],
                    base_dir@,
                    #[trigger] test_cases@[k],
                ),
        decreases n - i,
    {
        let tc = parse_test_case(tc_elems[i], base_dir);
        test_cases.push(tc);
        i = i + 1;
    }
    TestSet { name, environments, dependencies: Vec::new(), test_cases }
}

/// How one `test-set` element of the catalog reads as a [`TestSetRef`].
pub open spec fn ref_parses(e: XmlElement, r: TestSetRef) -> bool {
    r.name@ == attr_trim(e, "name"@) && r.file@ == attr_trim(e, "file"@)
}

/// The `test-set` elements kept by the catalog parser: those naming both a
/// set and a file.
pub open spec fn kept_refs_upto(cs: Seq<XmlElement>, i: int) -> Seq<XmlElement>
    decreases i,
{
    if i <= 0 {
        Seq::empty()
    } else {
        kept_refs_upto(cs, i - 1) + (if attr_trim(cs[i - 1], "name"@).len() > 0 && attr_trim(
            cs[i - 1],
            "file"@,
        ).len() > 0 {
            seq![cs[i - 1]]
        } else {
            Seq::empty()
        })
    }
}

/// The environment children of the `catalog` elements among `cats`, in
/// document order, one flat list.
pub open spec fn cat_envs_upto(cats: Seq<XmlElement>, i: int) -> Seq<XmlElement>
    decreases i,
{
    if i <= 0 {
        Seq::empty()
    } else {
        cat_envs_upto(cats, i - 1) + named_children_spec(cats[i - 1], "environment"@)
    }
}

/// How a whole catalog document reads as a [`Catalog`]: one reference per
/// `test-set` descendant naming both a set and a file, in document order,
/// and the global environment map bound exactly from the `environment`
/// children of the `catalog` elements.
pub open spec fn catalog_read_from(doc: XmlElement, base: Seq<char>, r: Catalog) -> bool {
    let sets = element_descendants_spec(doc, "test-set"@);
    let envs = cat_envs_upto(
        element_descendants_spec(doc, "catalog"@),
        element_descendants_spec(doc, "catalog"@).len() as int,
    );
    &&& r.test_sets@.len() == kept_refs_upto(sets, sets.len() as int).len()
    &&& (forall|k: int|
        0 <= k < r.test_sets@.len() ==> ref_parses(
            kept_refs_upto(sets, sets.len() as int)[k],
            #[trigger] r.test_sets@[k],
        ))
    &&& (forall|nm: Seq<char>|
        #[trigger] r.environments.spec_get(nm) matches Some(env) ==> exists|k: int|
            0 <= k < envs.len() && #[trigger] attr_trim(envs[k], "name"@) == nm && nm.len() > 0
                && env_parses(envs[k], base, env))
    &&& (forall|nm: Seq<char>|
        env_named_exists(envs, nm) ==> r.environments.spec_get(nm) is Some)
}

/// Read a catalog document: the test-set references that name both a set and
/// a file, in order, and the global environments declared under the catalog
/// elements.
#[verifier::loop_isolation(false)]
pub fn parse_catalog(doc: &XmlElement, base_dir: &str) -> (r: Catalog)
    ensures
        catalog_read_from(*doc, base_dir@, r),
{
    let set_elems = element_descendants(doc, "test-set");
    let ghost sets_spec = element_descendants_spec(*doc, "test-set"@);
    let mut test_sets: Vec<TestSetRef> = Vec::new();
    let n: usize = set_elems.len();
    let mut i: usize = 0;
    while i < n
        invariant
            i <= n,
            test_sets@.len() == kept_refs_upto(sets_spec, i as int).len(),
            forall|k: int|
                0 <= k < test_sets@.len() ==> ref_parses(
                    kept_refs_upto(sets_spec, i as int)[k],
                    #[trigger] test_sets@[k],
                ),
        decreases n - i,
    {
        let ghost kept_before = kept_refs_upto(sets_spec, i as int);
        let set_name = attr_trimmed(set_elems[i], "name");
        let set_file = attr_trimmed(set_elems[i], "file");
        if set_name.unicode_len() > 0 && set_file.unicode_len() > 0 {
            let tsr = TestSetRef { name: set_name, file: set_file };
            proof {
                assert(ref_parses(sets_spec[i as int], tsr));
                assert(kept_refs_upto(sets_spec, i + 1) =~= kept_before.push(
                    sets_spec[i as int],
                ));
            }
            test_sets.push(tsr);
        } else {
            proof {
                assert(kept_refs_upto(sets_spec, i + 1) =~= kept_before);
            }
        }
        i = i + 1;
    }
    let cat_elems = element_descendants(doc, "catalog");
    let ghost cats_spec = element_descendants_spec(*doc, "catalog"@);
    let mut env_elems: Vec<&XmlElement> = Vec::new();
    let cn: usize = cat_elems.len();
    let mut ci: usize = 0;
    while ci < cn
        invariant
            ci <= cn,
            seqs_of(env_elems@) =~= cat_envs_upto(cats_spec, ci as int),
        decreases cn - ci,
    {
        let mut sub = named_children(cat_elems[ci], "environment");
        proof {
            assert(seqs_of(sub@) =~= named_children_spec(cats_spec[ci as int], "environment"@));
            assert(seqs_of(env_elems@ + sub@) =~= seqs_of(env_elems@) + seqs_of(sub@));
        }
        env_elems.append(&mut sub);
        ci = ci + 1;
    }
    let ghost all_envs = cat_envs_upto(cats_spec, cn as int);
    let environments = build_env_map(&env_elems, base_dir);
    proof {
        assert(forall|k: int|
            0 <= k < env_elems@.len() ==> *env_elems@[k] == #[trigger] seqs_of(env_elems@)[k]);
        assert(seqs_of(env_elems@) == all_envs);
        assert forall|nm: Seq<char>| #[trigger] environments.spec_get(nm) matches Some(env)
            implies (exists|k: int|
            0 <= k < all_envs.len() && #[trigger] attr_trim(all_envs[k], "name"@) == nm
                && nm.len() > 0 && env_parses(
                all_envs[k],
                base_dir@,
                (environments.spec_get(nm)->Some_0),
            )) by {
            let k = choose|k: int|
                0 <= k < env_elems@.len() && #[trigger] attr_trim(*env_elems@[k], "name"@) == nm
                    && nm.len() > 0 && env_parses(
                    *env_elems@[k],
                    base_dir@,
                    environments.spec_get(nm)->Some_0,
                );
            assert(*env_elems@[k] == seqs_of(env_elems@)[k]);
            assert(attr_trim(all_envs[k], "name"@) == nm);
        }
        assert forall|nm: Seq<char>| env_named_exists(all_envs, nm)
            implies environments.spec_get(nm) is Some by {
            let k = choose|k: int| 0 <= k < all_envs.len() && attr_trim(all_envs[k], "name"@)
                == nm;
            assert(*env_elems@[k] == seqs_of(env_elems@)[k]);
            assert(attr_trim(*env_elems@[k], "name"@) == nm);
            assert(env_named_exists(seqs_of(env_elems@), nm));
        }
    }
    Catalog { environments, test_sets }
}

} // verus!

verus! {

use crate::xml::{parse_xml_text, parsed_xml};

/// Parse catalog text: the document element is read by the XML parser and
/// the catalog is read out of it, exactly as [`parse_catalog`] reads it;
/// text that is not well-formed XML is refused.
pub fn load_catalog(text: &str, base_dir: &str) -> (r: Option<Catalog>)
    ensures
        r is Some <==> parsed_xml(text@) is Some,
        r matches Some(c) ==> parsed_xml(text@) matches Some(doc) && catalog_read_from(
            doc,
            base_dir@,
            c,
        ),
{
    match parse_xml_text(text) {
        Some(doc) => Some(parse_catalog(&doc, base_dir)),
        None => None,
    }
}

/// Parse test-set text, as [`load_catalog`] parses catalog text: the result
/// reads from the parsed document exactly as [`parse_test_set`] reads it.
pub fn load_test_set(text: &str, base_dir: &str) -> (r: Option<TestSet>)
    ensures
        r is Some <==> parsed_xml(text@) is Some,
        r matches Some(ts) ==> parsed_xml(text@) matches Some(doc) && test_set_read_from(
            doc,
            base_dir@,
            ts,
        ),
{
    match parse_xml_text(text) {
        Some(doc) => Some(parse_test_set(&doc, base_dir)),
        None => None,
    }
}

} // verus!
