use feignhttp::args::{ParamDecl, RoleAnn, TypeRepr};
use feignhttp::error::BuildError;
use feignhttp::group::{feign_impl, MemberDecl};
use feignhttp::lexicon::Method;
use feignhttp::plan::{http_impl, AmbientMaps, ArgValue, FnDecl};

fn no_env() -> Vec<(String, String)> {
    Vec::new()
}

fn no_values() -> Vec<(String, ArgValue)> {
    Vec::new()
}

fn named(t: &str) -> TypeRepr {
    TypeRepr::Named(t.to_string())
}

fn reference(t: TypeRepr) -> TypeRepr {
    TypeRepr::Ref(Box::new(t))
}

fn param(name: &str, ty: TypeRepr, roles: &[&str]) -> ParamDecl {
    ParamDecl {
        name: name.to_string(),
        ty,
        anns: roles
            .iter()
            .map(|r| RoleAnn {
                token: r.to_string(),
                name: None,
            })
            .collect(),
    }
}

fn decl(is_async: bool, params: Vec<ParamDecl>, ret: Option<TypeRepr>) -> FnDecl {
    FnDecl {
        is_async,
        params,
        ret,
    }
}

fn string_result() -> Option<TypeRepr> {
    Some(TypeRepr::ResultOf(Box::new(named("String"))))
}

fn run(attr: &str, d: &FnDecl) -> Result<feignhttp::plan::RequestPlan, BuildError> {
    http_impl(Method::GET, attr, d, &no_values(), &no_env())
}

#[test]
fn test_validate_no_url() {
    // #[get] on a function: no metadata assign
    let d = decl(false, vec![], None);
    let r = run("", &d);
    assert_eq!(r.unwrap_err(), BuildError::NoMetadataAssigned);
}

#[test]
fn test_validate_url() {
    // #[get(aaa = "http://xxx")]: metadata url not specified
    let d = decl(false, vec![], None);
    let r = run("aaa = \"http://xxx\"", &d);
    assert_eq!(r.unwrap_err(), BuildError::UrlNotSpecified);
}

#[test]
fn test_validate_url2() {
    // #[get(path = "/xxx")]: metadata url not specified
    let d = decl(false, vec![], None);
    let r = run("path = \"/xxx\"", &d);
    assert_eq!(r.unwrap_err(), BuildError::UrlNotSpecified);
}

#[test]
fn test_validate_invalid_url() {
    // #[get(url + "/aaa")]: metadata url is invalid
    let d = decl(false, vec![], None);
    let r = run("url + \"/aaa\"", &d);
    assert_eq!(r.unwrap_err(), BuildError::InvalidUrlExpression);
}

#[test]
fn test_validate_async() {
    // #[get("http://xxx")] on a plain fn: only support async fn
    let d = decl(false, vec![], None);
    let r = run("\"http://xxx\"", &d);
    assert_eq!(r.unwrap_err(), BuildError::NotAsync);
}

#[test]
fn test_validate_return_value() {
    // async fn without a return value
    let d = decl(true, vec![], None);
    let r = run("\"http://xxx\"", &d);
    assert_eq!(r.unwrap_err(), BuildError::MissingReturnValue);
}

#[test]
fn test_validate_return_value2() {
    // async fn get() -> i32: return value must be Result
    let d = decl(true, vec![], Some(named("i32")));
    let r = run("\"http://xxx\"", &d);
    assert_eq!(r.unwrap_err(), BuildError::MissingGenericReturn);
}

#[test]
fn test_validate_attr() {
    // #[aaa] a: i32: unknown arg type
    let d = decl(
        true,
        vec![param("a", named("i32"), &["aaa"])],
        string_result(),
    );
    let r = run("\"http://xxx\"", &d);
    assert_eq!(r.unwrap_err(), BuildError::UnknownRole);
}

#[test]
fn test_validate_attr2() {
    // a: i32, #[bbb] b: i32: unknown arg type
    let d = decl(
        true,
        vec![
            param("a", named("i32"), &[]),
            param("b", named("i32"), &["bbb"]),
        ],
        string_result(),
    );
    let r = run("\"http://xxx\"", &d);
    assert_eq!(r.unwrap_err(), BuildError::UnknownRole);
}

#[test]
fn test_validate_param() {
    // #[param] a: Vec<String>: unsupported param parameter
    let d = decl(
        true,
        vec![param(
            "a",
            TypeRepr::Sequence(Box::new(named("String"))),
            &["param"],
        )],
        string_result(),
    );
    let r = run("\"http://xxx\"", &d);
    assert_eq!(r.unwrap_err(), BuildError::UnsupportedParamType);
}

#[test]
fn test_validate_form() {
    // #[form] s: &String: a reference to a scalar is refused
    let d = decl(
        true,
        vec![param("s", reference(named("String")), &["form"])],
        string_result(),
    );
    let r = run("\"http://xxx\"", &d);
    assert_eq!(r.unwrap_err(), BuildError::UnsupportedFormCombination);
}

#[test]
fn test_validate_form2() {
    // #[form] a: i32, #[form] b: &i32, #[form] f: F: several form
    // parameters must all be scalars
    let d = decl(
        true,
        vec![
            param("a", named("i32"), &["form"]),
            param("b", reference(named("i32")), &["form"]),
            param("f", named("F"), &["form"]),
        ],
        string_result(),
    );
    let r = run("\"http://xxx\"", &d);
    assert_eq!(r.unwrap_err(), BuildError::UnsupportedFormCombination);
}

#[test]
fn test_validate_body() {
    // #[body] b: B, #[body] b2: B: request must have only one body
    let d = decl(
        true,
        vec![
            param("b", named("B"), &["body"]),
            param("b2", named("B"), &["body"]),
        ],
        string_result(),
    );
    let r = run("\"http://xxx\"", &d);
    assert_eq!(r.unwrap_err(), BuildError::MultipleBody);
}

#[test]
fn test_validate_body_form() {
    // #[body] b: S, #[form] f: S: only one of body or form
    let d = decl(
        true,
        vec![
            param("b", named("S"), &["body"]),
            param("f", named("S"), &["form"]),
        ],
        string_result(),
    );
    let r = run("\"http://xxx\"", &d);
    assert_eq!(r.unwrap_err(), BuildError::BodyFormConflict);
}

fn run_group(attr: &str, members: Vec<MemberDecl>) -> Result<Vec<feignhttp::plan::RequestPlan>, BuildError> {
    feign_impl(attr, &members, &AmbientMaps::new(), &no_env())
}

#[test]
fn test_validate_struct_impl() {
    // #[feign] with no metadata: no metadata assign
    let r = run_group("", vec![]);
    assert_eq!(r.unwrap_err(), BuildError::NoMetadataAssigned);
}

#[test]
fn test_validate_impl_url() {
    // #[feign(aaa = "http://xxx")]: metadata url not specified
    let r = run_group("aaa = \"http://xxx\"", vec![]);
    assert_eq!(r.unwrap_err(), BuildError::UrlNotSpecified);
}

#[test]
fn test_validate_impl_url2() {
    // #[feign(path = "http://xxx")]: metadata url not specified
    let r = run_group("path = \"http://xxx\"", vec![]);
    assert_eq!(r.unwrap_err(), BuildError::UrlNotSpecified);
}

#[test]
fn test_validate_impl_method() {
    // #[req] on a member: unknown request method marker
    let member = MemberDecl {
        verb: "req".to_string(),
        attr: String::new(),
        decl: decl(true, vec![], string_result()),
        values: no_values(),
    };
    let r = run_group("\"http://xxx\"", vec![member]);
    assert_eq!(r.unwrap_err(), BuildError::UnknownMethod);
}

#[test]
fn test_validate_impl_method_path() {
    // #[get(aaa = "/aaa")] on a member: metadata path not specified or
    // must be the first
    let member = MemberDecl {
        verb: "get".to_string(),
        attr: "aaa = \"/aaa\"".to_string(),
        decl: decl(true, vec![], string_result()),
        values: no_values(),
    };
    let r = run_group("\"http://xxx\"", vec![member]);
    assert_eq!(r.unwrap_err(), BuildError::PathOverrideMissing);
}
