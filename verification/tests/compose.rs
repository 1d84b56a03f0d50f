use feignhttp::args::{ParamDecl, RoleAnn, TypeRepr};
use feignhttp::error::BuildError;
use feignhttp::group::{client_fn_impl, feign_impl, MemberDecl};
use feignhttp::lexicon::Method;
use feignhttp::plan::{
    get_return_fn, http_impl, AmbientMaps, ArgValue, DecodeVariant, FnDecl, RequestPlan,
    SendVariant,
};

fn no_env() -> Vec<(String, String)> {
    Vec::new()
}

fn named(t: &str) -> TypeRepr {
    TypeRepr::Named(t.to_string())
}

fn str_slice() -> TypeRepr {
    TypeRepr::Ref(Box::new(named("str")))
}

fn vec_of(t: TypeRepr) -> TypeRepr {
    TypeRepr::Sequence(Box::new(t))
}

fn ann(token: &str) -> RoleAnn {
    RoleAnn {
        token: token.to_string(),
        name: None,
    }
}

fn ann_named(token: &str, name: &str) -> RoleAnn {
    RoleAnn {
        token: token.to_string(),
        name: Some(name.to_string()),
    }
}

fn param(name: &str, ty: TypeRepr, anns: Vec<RoleAnn>) -> ParamDecl {
    ParamDecl {
        name: name.to_string(),
        ty,
        anns,
    }
}

fn single(name: &str, value: &str) -> (String, ArgValue) {
    (name.to_string(), ArgValue::Single(value.to_string()))
}

fn many(name: &str, values: &[&str]) -> (String, ArgValue) {
    (
        name.to_string(),
        ArgValue::Many(values.iter().map(|v| v.to_string()).collect()),
    )
}

fn string_result() -> Option<TypeRepr> {
    Some(TypeRepr::ResultOf(Box::new(named("String"))))
}

fn pairs(entries: &[(&str, &str)]) -> Vec<(String, String)> {
    entries
        .iter()
        .map(|(k, v)| (k.to_string(), v.to_string()))
        .collect()
}

// The default role: an unannotated parameter of a free callable is a
// query parameter; path parameters substitute into the URL.
#[test]
fn default_role_is_query() {
    let decl = FnDecl {
        is_async: true,
        params: vec![
            param("owner", str_slice(), vec![ann("path")]),
            param("repo", str_slice(), vec![ann("path")]),
            param("page", named("u32"), vec![]),
        ],
        ret: string_result(),
    };
    let values = vec![
        single("owner", "dxx"),
        single("repo", "feignhttp"),
        single("page", "1"),
    ];
    let plan = http_impl(
        Method::GET,
        "\"https://api.github.com/repos/{owner}/{repo}/contributors\"",
        &decl,
        &values,
        &no_env(),
    )
    .unwrap();
    assert_eq!(
        plan.path_map,
        pairs(&[("owner", "dxx"), ("repo", "feignhttp")])
    );
    assert_eq!(plan.query, pairs(&[("page", "1")]));
    assert_eq!(plan.url, "https://api.github.com/repos/dxx/feignhttp/contributors");
}

// Repeatable query expansion: a sequence-typed query argument expands
// to one pair per element, in order, under the same key.
#[test]
fn repeatable_query_expansion() {
    let decl = FnDecl {
        is_async: true,
        params: vec![param("names", vec_of(named("String")), vec![ann_named("query", "name")])],
        ret: string_result(),
    };
    let values = vec![many("names", &["Bob", "Tom", "Jack"])];
    let plan = http_impl(Method::GET, "\"http://xxx\"", &decl, &values, &no_env()).unwrap();
    assert_eq!(
        plan.query,
        pairs(&[("name", "Bob"), ("name", "Tom"), ("name", "Jack")])
    );
}

// Plain query pairs come before repeatable expansions on the wire.
#[test]
fn query_order_plain_then_repeatable() {
    let decl = FnDecl {
        is_async: true,
        params: vec![
            param("names", vec_of(named("String")), vec![ann_named("query", "name")]),
            param("id", named("i32"), vec![ann("query")]),
        ],
        ret: string_result(),
    };
    let values = vec![many("names", &["xxx", "xxx2"]), single("id", "1")];
    let plan = http_impl(Method::GET, "\"http://xxx\"", &decl, &values, &no_env()).unwrap();
    assert_eq!(
        plan.query,
        pairs(&[("id", "1"), ("name", "xxx"), ("name", "xxx2")])
    );
}

// Header precedence: an explicit header argument beats the member's
// `headers=` entry, which beats the group-level one.
#[test]
fn header_precedence() {
    let member = MemberDecl {
        verb: "get".to_string(),
        attr: "\"/x\", headers = \"accept: b\"".to_string(),
        decl: FnDecl {
            is_async: true,
            params: vec![param("accept", str_slice(), vec![ann("header")])],
            ret: string_result(),
        },
        values: vec![single("accept", "c")],
    };
    let plans = feign_impl(
        "\"http://xxx\", headers = \"accept: a\"",
        &vec![member],
        &AmbientMaps::new(),
        &no_env(),
    )
    .unwrap();
    assert_eq!(plans.len(), 1);
    assert_eq!(plans[0].headers, pairs(&[("accept", "c")]));
}

// Config override across a group: the member-level entry wins.
#[test]
fn config_override_across_group() {
    let member = MemberDecl {
        verb: "get".to_string(),
        attr: "\"/x\", connect_timeout = 5000".to_string(),
        decl: FnDecl {
            is_async: true,
            params: vec![],
            ret: string_result(),
        },
        values: Vec::new(),
    };
    let plans = feign_impl(
        "\"http://xxx\", connect_timeout = 3000",
        &vec![member],
        &AmbientMaps::new(),
        &no_env(),
    )
    .unwrap();
    assert_eq!(plans[0].config, pairs(&[("connect_timeout", "5000")]));
}

// Decode-variant selection for each shape of the success type.
#[test]
fn decode_variant_selection() {
    assert_eq!(get_return_fn(&vec_of(named("u8"))), DecodeVariant::RawBytes);
    assert_eq!(get_return_fn(&named("String")), DecodeVariant::PlainText);
    assert_eq!(get_return_fn(&TypeRepr::Unit), DecodeVariant::NoDecode);
    assert_eq!(get_return_fn(&named("User")), DecodeVariant::Structured);
    assert_eq!(get_return_fn(&vec_of(named("IssueItem"))), DecodeVariant::Structured);
}

// A single compound form argument goes whole to the structured form
// encoder.
#[test]
fn single_struct_form_is_structured() {
    let decl = FnDecl {
        is_async: true,
        params: vec![param("user", named("User"), vec![ann("form")])],
        ret: string_result(),
    };
    let values = vec![single("user", "ignored")];
    let plan = http_impl(Method::POST, "\"http://xxx\"", &decl, &values, &no_env()).unwrap();
    assert!(matches!(plan.send, SendVariant::FormStructured));
}

// Two form arguments where one is compound are refused.
#[test]
fn multi_form_with_struct_is_refused() {
    let decl = FnDecl {
        is_async: true,
        params: vec![
            param("id", named("i32"), vec![ann("form")]),
            param("user", named("User"), vec![ann("form")]),
        ],
        ret: string_result(),
    };
    let r = http_impl(Method::POST, "\"http://xxx\"", &decl, &vec![], &no_env());
    assert_eq!(r.unwrap_err(), BuildError::UnsupportedFormCombination);
}

// Scalar form arguments become one encoded pair each.
#[test]
fn scalar_form_pairs() {
    let decl = FnDecl {
        is_async: true,
        params: vec![
            param("id", named("i32"), vec![ann("form")]),
            param("name", str_slice(), vec![ann("form")]),
        ],
        ret: string_result(),
    };
    let values = vec![single("id", "1"), single("name", "xxx")];
    let plan = http_impl(Method::POST, "\"http://xxx\"", &decl, &values, &no_env()).unwrap();
    match &plan.send {
        SendVariant::FormPairs(p) => assert_eq!(*p, pairs(&[("id", "1"), ("name", "xxx")])),
        other => panic!("unexpected send variant: {:?}", other),
    }
}

// Body type drives the send variant.
#[test]
fn body_send_selection() {
    let cases: Vec<(TypeRepr, fn(&SendVariant) -> bool)> = vec![
        (vec_of(named("u8")), |s| matches!(s, SendVariant::RawBytes)),
        (named("String"), |s| matches!(s, SendVariant::PlainText)),
        (str_slice(), |s| matches!(s, SendVariant::PlainText)),
        (named("User"), |s| matches!(s, SendVariant::Structured)),
    ];
    for (ty, check) in cases {
        let decl = FnDecl {
            is_async: true,
            params: vec![param("b", ty, vec![ann("body")])],
            ret: string_result(),
        };
        let values = vec![single("b", "payload")];
        let plan =
            http_impl(Method::POST, "\"http://xxx\"", &decl, &values, &no_env()).unwrap();
        assert!(check(&plan.send));
    }
}

// The missing-URL failure is independent of the verb.
#[test]
fn empty_metadata_always_refused() {
    for m in [Method::GET, Method::POST, Method::PUT, Method::DELETE] {
        let decl = FnDecl {
            is_async: true,
            params: vec![],
            ret: string_result(),
        };
        let r = http_impl(m, "", &decl, &vec![], &no_env());
        assert_eq!(r.unwrap_err(), BuildError::NoMetadataAssigned);
    }
}

// The full scenario: path substitution, bulk header, query pair, and
// both variants of a plain GET returning text.
#[test]
fn whole_plan_scenario() {
    let decl = FnDecl {
        is_async: true,
        params: vec![
            param("owner", str_slice(), vec![ann("path")]),
            param("repo", str_slice(), vec![ann("path")]),
            param("page", named("u32"), vec![ann("query")]),
        ],
        ret: string_result(),
    };
    let values = vec![
        single("owner", "dxx"),
        single("repo", "feignhttp"),
        single("page", "1"),
    ];
    let plan: RequestPlan = http_impl(
        Method::GET,
        "\"https://api.x.com/repos/{owner}/{repo}\", headers = \"accept: v3\"",
        &decl,
        &values,
        &no_env(),
    )
    .unwrap();
    assert_eq!(plan.url, "https://api.x.com/repos/dxx/feignhttp");
    assert_eq!(plan.headers, pairs(&[("accept", "v3")]));
    assert_eq!(plan.query, pairs(&[("page", "1")]));
    assert!(matches!(plan.send, SendVariant::NoBody));
    assert_eq!(plan.decode, DecodeVariant::PlainText);
    assert_eq!(plan.method, Method::GET);
}

// A substitution argument parametrizes a config value.
#[test]
fn param_substitutes_into_config() {
    let decl = FnDecl {
        is_async: true,
        params: vec![param("time", named("u16"), vec![ann("param")])],
        ret: string_result(),
    };
    let values = vec![single("time", "2000")];
    let plan = http_impl(
        Method::GET,
        "url = \"https://httpbin.org/delay/5\", timeout = \"{time}\"",
        &decl,
        &values,
        &no_env(),
    )
    .unwrap();
    assert_eq!(plan.config, pairs(&[("timeout", "2000")]));
}

// A substitution argument parametrizes a bulk header value.
#[test]
fn param_substitutes_into_headers() {
    let decl = FnDecl {
        is_async: true,
        params: vec![param("token", str_slice(), vec![ann("param")])],
        ret: string_result(),
    };
    let values = vec![single("token", "ZmVpZ25odHRw")];
    let plan = http_impl(
        Method::GET,
        "\"https://httpbin.org/headers\", headers = \"token: {token}\"",
        &decl,
        &values,
        &no_env(),
    )
    .unwrap();
    assert_eq!(plan.headers, pairs(&[("token", "ZmVpZ25odHRw")]));
}

// Several bulk header entries arrive in order, and the verb is kept.
#[test]
fn multi_entry_bulk_headers() {
    let decl = FnDecl {
        is_async: true,
        params: vec![],
        ret: string_result(),
    };
    let plan = http_impl(
        Method::POST,
        "\"http://xxx\", headers = \"name: jack; pwd: MTIzNDU2\"",
        &decl,
        &vec![],
        &no_env(),
    )
    .unwrap();
    assert_eq!(plan.headers, pairs(&[("name", "jack"), ("pwd", "MTIzNDU2")]));
    assert_eq!(plan.method, Method::POST);
}

// A malformed bulk header entry is a format failure.
#[test]
fn malformed_headers_refused() {
    let decl = FnDecl {
        is_async: true,
        params: vec![],
        ret: string_result(),
    };
    for bad in ["headers = \"accept\"", "headers = \": v\"", "headers = \"accept: \""] {
        let attr = format!("\"http://xxx\", {}", bad);
        let r = http_impl(Method::GET, attr.as_str(), &decl, &vec![], &no_env());
        assert_eq!(r.unwrap_err(), BuildError::HeaderFormatError);
    }
}

// A bare reference URL is kept as an expression and resolved against
// the bound constants at composition time.
#[test]
fn url_constant_resolution() {
    let decl = FnDecl {
        is_async: true,
        params: vec![],
        ret: string_result(),
    };
    let env = pairs(&[("GITHUB_URL", "https://api.github.com")]);
    let plan = http_impl(
        Method::GET,
        "GITHUB_URL, path = \"/repos\"",
        &decl,
        &vec![],
        &env,
    )
    .unwrap();
    assert_eq!(plan.url, "https://api.github.com/repos");
}

// Aggregate fields feed every member as ambient context.
#[test]
fn field_ambient_context() {
    let fields = vec![
        ParamDecl {
            name: "accept".to_string(),
            ty: str_slice(),
            anns: vec![ann("header")],
        },
        ParamDecl {
            name: "say".to_string(),
            ty: str_slice(),
            anns: vec![ann("query")],
        },
        ParamDecl {
            name: "ignored".to_string(),
            ty: str_slice(),
            anns: vec![],
        },
    ];
    let client = client_fn_impl(
        &fields,
        vec![
            single("accept", "application/octet-stream"),
            single("say", "hello"),
            single("ignored", "nothing"),
        ],
    )
    .unwrap();
    let ambient = client.ambient();
    assert_eq!(ambient.headers, pairs(&[("accept", "application/octet-stream")]));
    assert_eq!(ambient.query, pairs(&[("say", "hello")]));
    let member = MemberDecl {
        verb: "get".to_string(),
        attr: "\"/repos\"".to_string(),
        decl: FnDecl {
            is_async: true,
            params: vec![],
            ret: string_result(),
        },
        values: Vec::new(),
    };
    let plans = feign_impl("\"http://xxx\"", &vec![member], &ambient, &no_env()).unwrap();
    assert_eq!(plans[0].url, "http://xxx/repos");
    assert_eq!(plans[0].headers, pairs(&[("accept", "application/octet-stream")]));
    assert_eq!(plans[0].query, pairs(&[("say", "hello")]));
}

// A call with no arguments of any role composes the all-empty plan.
#[test]
fn zero_argument_call() {
    let decl = FnDecl {
        is_async: true,
        params: vec![],
        ret: string_result(),
    };
    let plan = http_impl(Method::GET, "\"http://xxx\"", &decl, &vec![], &no_env()).unwrap();
    assert!(plan.headers.is_empty());
    assert!(plan.path_map.is_empty());
    assert!(plan.query.is_empty());
    assert!(plan.config.is_empty());
    assert!(matches!(plan.send, SendVariant::NoBody));
}
