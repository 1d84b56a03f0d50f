//! The request-plan composer: the classified arguments, the resolved
//! URL text and the merged configuration of one annotated callable are
//! turned into a fully resolved request plan — the four key-ordered
//! collections, the body-send variant and the response-decode variant.

use vstd::prelude::*;
use crate::args::{
    spec_parse_args, spec_scalar_type, spec_seq_type, is_scalar_type, is_seq_type, clone_type,
    parse_args_from_sig, FnArg, ParamDecl, TypeRepr,
};
use crate::error::BuildError;
use crate::lexicon::{ArgType, Method};
use crate::maps::{spec_upsert, upsert};
use crate::strutil::{spec_split, spec_trim, split_str, str_eq, trim_str};
use crate::util::{apply_substs, replace};

verus! {

/// The metadata of one annotated callable: the resolved URL text, the
/// HTTP method, and the `key = value` configuration entries.
pub struct FnMetadata {
    pub url: String,
    pub method: Method,
    pub meta_map: Vec<(String, String)>,
}

/// The declaration shape of one annotated callable.
pub struct FnDecl {
    pub is_async: bool,
    pub params: Vec<ParamDecl>,
    pub ret: Option<TypeRepr>,
}

/// The stringified call-time value bound to one parameter: one text, or
/// one text per element for a sequence-typed parameter.
#[derive(Debug)]
pub enum ArgValue {
    Single(String),
    Many(Vec<String>),
}

/// The ambient context a group supplies to the composer: the shared
/// substitution, header, path and query collections.
pub struct AmbientMaps {
    pub params: Vec<(String, String)>,
    pub headers: Vec<(String, String)>,
    pub paths: Vec<(String, String)>,
    pub query: Vec<(String, String)>,
}

impl AmbientMaps {
    /// The empty ambient context of a free callable.
    pub fn new() -> (r: Self)
        ensures
            r.params@.len() == 0,
            r.headers@.len() == 0,
            r.paths@.len() == 0,
            r.query@.len() == 0,
    {
        AmbientMaps { params: Vec::new(), headers: Vec::new(), paths: Vec::new(), query: Vec::new() }
    }
}

/// The chosen body-send variant of a plan.
#[derive(Debug)]
pub enum SendVariant {
    /// No request body.
    NoBody,
    /// The body value is sent as raw bytes.
    RawBytes,
    /// The body value is sent as plain text.
    PlainText,
    /// The listed pairs are form-url-encoded and sent.
    FormPairs(Vec<(String, String)>),
    /// The single compound form value is handed whole to the structured
    /// form encoder.
    FormStructured,
    /// The body value is serialized by the structured codec.
    Structured,
}

/// The view of a send variant.
pub enum SendVariantView {
    NoBody,
    RawBytes,
    PlainText,
    FormPairs(Seq<(Seq<char>, Seq<char>)>),
    FormStructured,
    Structured,
}

impl View for SendVariant {
    type V = SendVariantView;

    open spec fn view(&self) -> SendVariantView {
        match self {
            SendVariant::NoBody => SendVariantView::NoBody,
            SendVariant::RawBytes => SendVariantView::RawBytes,
            SendVariant::PlainText => SendVariantView::PlainText,
            SendVariant::FormPairs(v) => SendVariantView::FormPairs(v.deep_view()),
            SendVariant::FormStructured => SendVariantView::FormStructured,
            SendVariant::Structured => SendVariantView::Structured,
        }
    }
}

/// The chosen response-decode variant of a plan.
#[derive(Clone, Copy, Debug, PartialEq, Eq, Structural)]
pub enum DecodeVariant {
    /// The response body is dropped.
    NoDecode,
    /// The response body is returned as raw bytes.
    RawBytes,
    /// The response body is returned as plain text.
    PlainText,
    /// The response body is decoded by the structured codec.
    Structured,
}

/// The composer's output for one annotated callable.
#[derive(Debug)]
pub struct RequestPlan {
    pub url: String,
    pub method: Method,
    pub headers: Vec<(String, String)>,
    pub path_map: Vec<(String, String)>,
    pub query: Vec<(String, String)>,
    pub config: Vec<(String, String)>,
    pub send: SendVariant,
    pub decode: DecodeVariant,
}

/// The view of a request plan.
pub struct RequestPlanView {
    pub url: Seq<char>,
    pub method: Method,
    pub headers: Seq<(Seq<char>, Seq<char>)>,
    pub path_map: Seq<(Seq<char>, Seq<char>)>,
    pub query: Seq<(Seq<char>, Seq<char>)>,
    pub config: Seq<(Seq<char>, Seq<char>)>,
    pub send: SendVariantView,
    pub decode: DecodeVariant,
}

impl DeepView for RequestPlan {
    type V = RequestPlanView;

    open spec fn deep_view(&self) -> RequestPlanView {
        self.view()
    }
}

impl View for RequestPlan {
    type V = RequestPlanView;

    open spec fn view(&self) -> RequestPlanView {
        RequestPlanView {
            url: self.url@,
            method: self.method,
            headers: self.headers.deep_view(),
            path_map: self.path_map.deep_view(),
            query: self.query.deep_view(),
            config: self.config.deep_view(),
            send: self.send@,
            decode: self.decode,
        }
    }
}

/// The texts an argument value contributes: the single text, or one
/// text per element.
pub open spec fn spec_value_texts(v: ArgValue) -> Seq<Seq<char>> {
    match v {
        ArgValue::Single(s) => seq![s@],
        ArgValue::Many(vs) => vs.deep_view(),
    }
}

/// The texts bound to a binding name; an unbound name contributes
/// nothing.
pub open spec fn spec_texts(values: Seq<(String, ArgValue)>, var: Seq<char>) -> Seq<Seq<char>>
    decreases values.len(),
{
    if values.len() == 0 {
        Seq::empty()
    } else if values[0].0@ == var {
        spec_value_texts(values[0].1)
    } else {
        spec_texts(values.drop_first(), var)
    }
}

/// Finds the texts bound to a binding name.
pub fn find_texts(values: &Vec<(String, ArgValue)>, var: &str) -> (r: Vec<String>)
    ensures
        r.deep_view() == spec_texts(values@, var@),
{
    let mut i: usize = 0;
    proof {
        assert(values@.skip(0) =~= values@);
    }
    while i < values.len()
        invariant
            i <= values.len(),
            spec_texts(values@, var@) == spec_texts(values@.skip(i as int), var@),
        decreases values.len() - i,
    {
        proof {
            assert(values@.skip(i as int)[0] == values@[i as int]);
            assert(values@.skip(i as int).drop_first() =~= values@.skip(i + 1));
        }
        if str_eq(values[i].0.as_str(), var) {
            match &values[i].1 {
                ArgValue::Single(s) => {
                    let mut out: Vec<String> = Vec::new();
                    out.push(s.clone());
                    proof {
                        assert(out.deep_view() =~= spec_value_texts(values@[i as int].1));
                    }
                    return out;
                },
                ArgValue::Many(vs) => {
                    let mut out: Vec<String> = Vec::new();
                    let mut j: usize = 0;
                    while j < vs.len()
                        invariant
                            j <= vs.len(),
                            out@ =~= vs@.take(j as int),
                        decreases vs.len() - j,
                    {
                        out.push(vs[j].clone());
                        proof {
                            assert(out@ =~= vs@.take(j + 1));
                        }
                        j += 1;
                    }
                    proof {
                        assert(out@ =~= vs@);
                        assert(out.deep_view() =~= vs.deep_view());
                        assert(out.deep_view() =~= spec_value_texts(values@[i as int].1));
                    }
                    return out;
                },
            }
        }
        i += 1;
    }
    proof {
        assert(values@.skip(values@.len() as int) =~= Seq::<(String, ArgValue)>::empty());
    }
    Vec::new()
}

/// How many arguments carry a role.
pub open spec fn spec_count_role(args: Seq<FnArg>, role: ArgType) -> int
    decreases args.len(),
{
    if args.len() == 0 {
        0
    } else {
        (if args[0].arg_type == role {
            1int
        } else {
            0int
        }) + spec_count_role(args.drop_first(), role)
    }
}

pub proof fn lemma_count_role_nonneg(args: Seq<FnArg>, role: ArgType)
    ensures
        0 <= spec_count_role(args, role) <= args.len(),
    decreases args.len(),
{
    if args.len() > 0 {
        lemma_count_role_nonneg(args.drop_first(), role);
    }
}

/// Counts the arguments that carry a role.
pub fn count_role(args: &Vec<FnArg>, role: ArgType) -> (r: usize)
    ensures
        r as int == spec_count_role(args@, role),
{
    proof {
        assert(args@.skip(0) =~= args@);
        lemma_count_role_nonneg(args@, role);
    }
    let mut n: usize = 0;
    let mut i: usize = 0;
    while i < args.len()
        invariant
            i <= args.len(),
            n <= i,
            n as int + spec_count_role(args@.skip(i as int), role) == spec_count_role(args@, role),
        decreases args.len() - i,
    {
        proof {
            assert(args@.skip(i as int)[0] == args@[i as int]);
            assert(args@.skip(i as int).drop_first() =~= args@.skip(i + 1));
        }
        if args[i].arg_type == role {
            n += 1;
        }
        i += 1;
    }
    proof {
        assert(args@.skip(args@.len() as int) =~= Seq::<FnArg>::empty());
    }
    n
}

/// The first argument of a role, if any.
pub open spec fn spec_first_role(args: Seq<FnArg>, role: ArgType) -> Option<FnArg>
    decreases args.len(),
{
    if args.len() == 0 {
        Option::None
    } else if args[0].arg_type == role {
        Option::Some(args[0])
    } else {
        spec_first_role(args.drop_first(), role)
    }
}

/// Finds the index of the first argument of a role.
pub fn find_first_role(args: &Vec<FnArg>, role: ArgType) -> (r: Option<usize>)
    ensures
        match r {
            Option::Some(i) => i < args@.len() && spec_first_role(args@, role) == Option::Some(
                args@[i as int],
            ),
            Option::None => spec_first_role(args@, role) is None,
        },
{
    let mut i: usize = 0;
    proof {
        assert(args@.skip(0) =~= args@);
    }
    while i < args.len()
        invariant
            i <= args.len(),
            spec_first_role(args@, role) == spec_first_role(args@.skip(i as int), role),
        decreases args.len() - i,
    {
        proof {
            assert(args@.skip(i as int)[0] == args@[i as int]);
            assert(args@.skip(i as int).drop_first() =~= args@.skip(i + 1));
        }
        if args[i].arg_type == role {
            return Some(i);
        }
        i += 1;
    }
    proof {
        assert(args@.skip(args@.len() as int) =~= Seq::<FnArg>::empty());
    }
    None
}

/// Whether every substitution-role argument has a scalar type.
pub open spec fn spec_params_ok(args: Seq<FnArg>) -> bool {
    forall|i: int|
        0 <= i < args.len() && (#[trigger] args[i]).arg_type == ArgType::PARAM ==> spec_scalar_type(
            args[i].var_type,
        )
}

/// Checks that every substitution-role argument has a scalar type.
pub fn check_params(args: &Vec<FnArg>) -> (r: bool)
    ensures
        r == spec_params_ok(args@),
{
    let mut i: usize = 0;
    while i < args.len()
        invariant
            i <= args.len(),
            forall|j: int|
                0 <= j < i && (#[trigger] args@[j]).arg_type == ArgType::PARAM
                    ==> spec_scalar_type(args@[j].var_type),
        decreases args.len() - i,
    {
        let is_param = args[i].arg_type == ArgType::PARAM;
        if is_param && !is_scalar_type(&args[i].var_type) {
            return false;
        }
        i += 1;
    }
    true
}

/// One `key: value` header entry, both sides trimmed and nonempty.
pub open spec fn spec_header_pair(seg: Seq<char>) -> Result<(Seq<char>, Seq<char>), BuildError> {
    let ps = spec_split(seg, ':');
    if ps.len() != 2 {
        Result::Err(BuildError::HeaderFormatError)
    } else {
        let k = spec_trim(ps[0]);
        let v = spec_trim(ps[1]);
        if k.len() == 0 || v.len() == 0 {
            Result::Err(BuildError::HeaderFormatError)
        } else {
            Result::Ok((k, v))
        }
    }
}

/// The pair list of a `;`-separated header text.
pub open spec fn spec_header_pairs(segs: Seq<Seq<char>>) -> Result<
    Seq<(Seq<char>, Seq<char>)>,
    BuildError,
>
    decreases segs.len(),
{
    if segs.len() == 0 {
        Result::Ok(Seq::empty())
    } else {
        match spec_header_pair(segs[0]) {
            Result::Err(e) => Result::Err(e),
            Result::Ok(p) => match spec_header_pairs(segs.drop_first()) {
                Result::Err(e) => Result::Err(e),
                Result::Ok(rest) => Result::Ok(seq![p] + rest),
            },
        }
    }
}

/// The parsed form of a `headers=` value: empty text gives no pairs,
/// otherwise every `;`-separated entry must be a `key: value` pair with
/// both sides nonempty.
pub open spec fn spec_parse_header_values(s: Seq<char>) -> Result<
    Seq<(Seq<char>, Seq<char>)>,
    BuildError,
> {
    if s.len() == 0 {
        Result::Ok(Seq::empty())
    } else {
        spec_header_pairs(spec_split(s, ';'))
    }
}

/// Parses a `headers=` value into its `key: value` pairs.
pub fn parse_header_values(s: &str) -> (r: Result<Vec<(String, String)>, BuildError>)
    ensures
        match r {
            Result::Ok(v) => spec_parse_header_values(s@) == Result::<
                Seq<(Seq<char>, Seq<char>)>,
                BuildError,
            >::Ok(v.deep_view()),
            Result::Err(e) => spec_parse_header_values(s@) == Result::<
                Seq<(Seq<char>, Seq<char>)>,
                BuildError,
            >::Err(e),
        },
{
    if s.unicode_len() == 0 {
        let r: Vec<(String, String)> = Vec::new();
        proof {
            assert(r.deep_view() =~= Seq::<(Seq<char>, Seq<char>)>::empty());
        }
        return Ok(r);
    }
    let segs = split_str(s, ';');
    let ghost segsv = spec_split(s@, ';');
    let mut out: Vec<(String, String)> = Vec::new();
    let mut i: usize = 0;
    proof {
        assert(segsv.skip(0) =~= segsv);
    }
    while i < segs.len()
        invariant
            i <= segs.len(),
            s@.len() != 0,
            segsv == spec_split(s@, ';'),
            segs.deep_view() == segsv,
            segs.deep_view().len() == segs.len(),
            ({
                let full = spec_header_pairs(segsv);
                let rest = spec_header_pairs(segsv.skip(i as int));
                match rest {
                    Result::Ok(tail) => full == Result::<
                        Seq<(Seq<char>, Seq<char>)>,
                        BuildError,
                    >::Ok(out.deep_view() + tail),
                    Result::Err(e) => full == Result::<
                        Seq<(Seq<char>, Seq<char>)>,
                        BuildError,
                    >::Err(e),
                }
            }),
        decreases segs.len() - i,
    {
        proof {
            assert(segsv.skip(i as int)[0] == segsv[i as int]);
            assert(segsv.skip(i as int).drop_first() =~= segsv.skip(i + 1));
            assert(segs[i as int]@ == segsv[i as int]);
        }
        let parts = split_str(segs[i].as_str(), ':');
        proof {
            assert(parts.deep_view() == spec_split(segsv[i as int], ':'));
            assert(parts.deep_view().len() == parts@.len());
        }
        if parts.len() != 2 {
            proof {
                assert(spec_header_pair(segsv[i as int]) == Result::<
                    (Seq<char>, Seq<char>),
                    BuildError,
                >::Err(BuildError::HeaderFormatError));
            }
            return Err(BuildError::HeaderFormatError);
        }
        let k = trim_str(parts[0].as_str());
        let v = trim_str(parts[1].as_str());
        proof {
            assert(parts@[0]@ == parts.deep_view()[0]);
            assert(parts@[1]@ == parts.deep_view()[1]);
            assert(k@ == spec_trim(spec_split(segsv[i as int], ':')[0]));
            assert(v@ == spec_trim(spec_split(segsv[i as int], ':')[1]));
        }
        if k.unicode_len() == 0 || v.unicode_len() == 0 {
            return Err(BuildError::HeaderFormatError);
        }
        let ghost prev = out.deep_view();
        out.push((k.to_owned(), v.to_owned()));
        proof {
            let p = (spec_trim(spec_split(segsv[i as int], ':')[0]), spec_trim(
                spec_split(segsv[i as int], ':')[1],
            ));
            assert(out.deep_view() =~= prev.push(p));
            let rest = spec_header_pairs(segsv.skip(i + 1));
            if rest is Ok {
                assert(out.deep_view() + rest->Ok_0 =~= prev + (seq![p] + rest->Ok_0));
            }
        }
        i += 1;
    }
    proof {
        assert(segsv.skip(segsv.len() as int) =~= Seq::<Seq<char>>::empty());
        assert(out.deep_view() + Seq::<(Seq<char>, Seq<char>)>::empty() =~= out.deep_view());
    }
    Ok(out)
}

/// The decode variant a declared success type selects: unit drops the
/// body, a byte vector takes raw bytes, a string takes plain text, and
/// any other type goes through the structured codec.
pub open spec fn spec_return_fn(t: TypeRepr) -> DecodeVariant {
    match t {
        TypeRepr::Unit => DecodeVariant::NoDecode,
        TypeRepr::Sequence(b) => match *b {
            TypeRepr::Named(s) => if s@ == "u8"@ {
                DecodeVariant::RawBytes
            } else {
                DecodeVariant::Structured
            },
            _ => DecodeVariant::Structured,
        },
        TypeRepr::Named(s) => if s@ == "String"@ {
            DecodeVariant::PlainText
        } else {
            DecodeVariant::Structured
        },
        _ => DecodeVariant::Structured,
    }
}

/// Selects the response-decode variant for a declared success type.
pub fn get_return_fn(return_type: &TypeRepr) -> (r: DecodeVariant)
    ensures
        r == spec_return_fn(*return_type),
{
    proof {
        reveal_strlit("u8");
        reveal_strlit("String");
    }
    match return_type {
        TypeRepr::Unit => DecodeVariant::NoDecode,
        TypeRepr::Sequence(b) => match &**b {
            TypeRepr::Named(s) => if str_eq(s.as_str(), "u8") {
                DecodeVariant::RawBytes
            } else {
                DecodeVariant::Structured
            },
            _ => DecodeVariant::Structured,
        },
        TypeRepr::Named(s) => if str_eq(s.as_str(), "String") {
            DecodeVariant::PlainText
        } else {
            DecodeVariant::Structured
        },
        _ => DecodeVariant::Structured,
    }
}

/// The send variant a declared body type selects: a byte vector is
/// sent raw, a string as plain text, anything else through the
/// structured codec.
pub open spec fn spec_body_fn(t: TypeRepr) -> SendVariantView {
    match t {
        TypeRepr::Sequence(b) => match *b {
            TypeRepr::Named(s) => if s@ == "u8"@ {
                SendVariantView::RawBytes
            } else {
                SendVariantView::Structured
            },
            _ => SendVariantView::Structured,
        },
        TypeRepr::Named(s) => if s@ == "String"@ {
            SendVariantView::PlainText
        } else {
            SendVariantView::Structured
        },
        TypeRepr::Ref(b) => match *b {
            TypeRepr::Named(s) => if s@ == "str"@ {
                SendVariantView::PlainText
            } else {
                SendVariantView::Structured
            },
            _ => SendVariantView::Structured,
        },
        _ => SendVariantView::Structured,
    }
}

/// Selects the body-send variant for a declared body type.
pub fn get_body_fn_call(body_type: &TypeRepr) -> (r: SendVariant)
    ensures
        r@ == spec_body_fn(*body_type),
{
    proof {
        reveal_strlit("u8");
        reveal_strlit("String");
        reveal_strlit("str");
    }
    match body_type {
        TypeRepr::Sequence(b) => match &**b {
            TypeRepr::Named(s) => if str_eq(s.as_str(), "u8") {
                SendVariant::RawBytes
            } else {
                SendVariant::Structured
            },
            _ => SendVariant::Structured,
        },
        TypeRepr::Named(s) => if str_eq(s.as_str(), "String") {
            SendVariant::PlainText
        } else {
            SendVariant::Structured
        },
        TypeRepr::Ref(b) => match &**b {
            TypeRepr::Named(s) => if str_eq(s.as_str(), "str") {
                SendVariant::PlainText
            } else {
                SendVariant::Structured
            },
            _ => SendVariant::Structured,
        },
        _ => SendVariant::Structured,
    }
}

/// Extracts the success type from the declared return type: there must
/// be a return type, and it must be `Result`-shaped with its success
/// type present.
pub open spec fn spec_parse_return_type(ret: Option<TypeRepr>) -> Result<TypeRepr, BuildError> {
    match ret {
        Option::None => Result::Err(BuildError::MissingReturnValue),
        Option::Some(t) => match t {
            TypeRepr::ResultOf(b) => Result::Ok(*b),
            _ => Result::Err(BuildError::MissingGenericReturn),
        },
    }
}

/// Extracts the success type from the declared return type.
pub fn parse_return_type(ret: &Option<TypeRepr>) -> (r: Result<TypeRepr, BuildError>)
    ensures
        match r {
            Result::Ok(t) => spec_parse_return_type(*ret) == Result::<TypeRepr, BuildError>::Ok(t),
            Result::Err(e) => spec_parse_return_type(*ret) == Result::<TypeRepr, BuildError>::Err(
                e,
            ),
        },
{
    match ret {
        None => Err(BuildError::MissingReturnValue),
        Some(t) => match t {
            TypeRepr::ResultOf(b) => Ok(clone_type(b)),
            _ => Err(BuildError::MissingGenericReturn),
        },
    }
}

/// One wire pair per text, all under one exposed name.
pub open spec fn spec_texts_pairs(name: Seq<char>, texts: Seq<Seq<char>>) -> Seq<
    (Seq<char>, Seq<char>),
> {
    Seq::new(texts.len(), |i: int| (name, texts[i]))
}

/// Whether a pair filter admits an argument type: no filter, only
/// repeatable sequence types, or only non-sequence types.
pub open spec fn spec_pair_filter(t: TypeRepr, mode: Option<bool>) -> bool {
    match mode {
        Option::None => true,
        Option::Some(b) => spec_seq_type(t) == b,
    }
}

/// The wire pairs contributed by the arguments of a role, in argument
/// order; a repeatable argument contributes one pair per element, in
/// element order, all under the same key.
pub open spec fn spec_role_pairs(
    args: Seq<FnArg>,
    values: Seq<(String, ArgValue)>,
    role: ArgType,
    mode: Option<bool>,
) -> Seq<(Seq<char>, Seq<char>)>
    decreases args.len(),
{
    if args.len() == 0 {
        Seq::empty()
    } else {
        let rest = spec_role_pairs(args.drop_first(), values, role, mode);
        if args[0].arg_type == role && spec_pair_filter(args[0].var_type, mode) {
            spec_texts_pairs(args[0].name@, spec_texts(values, args[0].var@)) + rest
        } else {
            rest
        }
    }
}

/// Collects the wire pairs of the arguments of a role.
pub fn collect_role_pairs(
    args: &Vec<FnArg>,
    values: &Vec<(String, ArgValue)>,
    role: ArgType,
    mode: Option<bool>,
) -> (r: Vec<(String, String)>)
    ensures
        r.deep_view() == spec_role_pairs(args@, values@, role, mode),
{
    let mut out: Vec<(String, String)> = Vec::new();
    let mut i: usize = 0;
    proof {
        assert(args@.skip(0) =~= args@);
    }
    while i < args.len()
        invariant
            i <= args.len(),
            ({
                let full = spec_role_pairs(args@, values@, role, mode);
                let rest = spec_role_pairs(args@.skip(i as int), values@, role, mode);
                full == out.deep_view() + rest
            }),
        decreases args.len() - i,
    {
        proof {
            assert(args@.skip(i as int)[0] == args@[i as int]);
            assert(args@.skip(i as int).drop_first() =~= args@.skip(i + 1));
        }
        let wanted = args[i].arg_type == role && (match mode {
            Option::None => true,
            Option::Some(b) => is_seq_type(&args[i].var_type) == b,
        });
        if wanted {
            let texts = find_texts(values, args[i].var.as_str());
            let ghost prev = out.deep_view();
            let ghost textsv = spec_texts(values@, args@[i as int].var@);
            let mut j: usize = 0;
            proof {
                assert(texts.deep_view() == textsv);
            }
            while j < texts.len()
                invariant
                    j <= texts.len(),
                    i < args.len(),
                    args@.len() == args.len(),
                    texts.deep_view() == textsv,
                    texts.deep_view().len() == texts.len(),
                    out.deep_view() =~= prev + spec_texts_pairs(
                        args@[i as int].name@,
                        textsv.take(j as int),
                    ),
                decreases texts.len() - j,
            {
                let ghost dpre = out.deep_view();
                out.push((args[i].name.clone(), texts[j].clone()));
                proof {
                    let name = args@[i as int].name@;
                    assert(texts@[j as int]@ == textsv[j as int]);
                    assert(out.deep_view() =~= dpre.push((name, textsv[j as int])));
                    assert(dpre.push((name, textsv[j as int])) =~= prev + spec_texts_pairs(
                        name,
                        textsv.take(j + 1),
                    ));
                }
                j += 1;
            }
            proof {
                assert(textsv.take(textsv.len() as int) =~= textsv);
                let full = spec_role_pairs(args@, values@, role, mode);
                let rest = spec_role_pairs(args@.skip(i + 1), values@, role, mode);
                assert(out.deep_view() + rest =~= prev + (spec_texts_pairs(
                    args@[i as int].name@,
                    textsv,
                ) + rest));
            }
        }
        i += 1;
    }
    proof {
        assert(args@.skip(args@.len() as int) =~= Seq::<FnArg>::empty());
        assert(out.deep_view() + Seq::<(Seq<char>, Seq<char>)>::empty() =~= out.deep_view());
    }
    out
}

/// Upserts one pair per text under one name, in element order.
pub open spec fn spec_upsert_texts(
    acc: Seq<(Seq<char>, Seq<char>)>,
    name: Seq<char>,
    texts: Seq<Seq<char>>,
) -> Seq<(Seq<char>, Seq<char>)>
    decreases texts.len(),
{
    if texts.len() == 0 {
        acc
    } else {
        spec_upsert_texts(spec_upsert(acc, name, texts[0]), name, texts.drop_first())
    }
}

/// Folds the arguments of a role into a keyed map, later arguments of
/// the same key overriding earlier ones.
pub open spec fn spec_role_map(
    acc: Seq<(Seq<char>, Seq<char>)>,
    args: Seq<FnArg>,
    values: Seq<(String, ArgValue)>,
    role: ArgType,
) -> Seq<(Seq<char>, Seq<char>)>
    decreases args.len(),
{
    if args.len() == 0 {
        acc
    } else {
        let acc2 = if args[0].arg_type == role {
            spec_upsert_texts(acc, args[0].name@, spec_texts(values, args[0].var@))
        } else {
            acc
        };
        spec_role_map(acc2, args.drop_first(), values, role)
    }
}

/// Applies the arguments of a role onto a keyed map.
pub fn apply_role_map(
    map: &mut Vec<(String, String)>,
    args: &Vec<FnArg>,
    values: &Vec<(String, ArgValue)>,
    role: ArgType,
)
    ensures
        final(map).deep_view() == spec_role_map(old(map).deep_view(), args@, values@, role),
{
    let ghost acc0 = old(map).deep_view();
    let mut i: usize = 0;
    proof {
        assert(args@.skip(0) =~= args@);
    }
    while i < args.len()
        invariant
            i <= args.len(),
            spec_role_map(acc0, args@, values@, role) == spec_role_map(
                map.deep_view(),
                args@.skip(i as int),
                values@,
                role,
            ),
        decreases args.len() - i,
    {
        proof {
            assert(args@.skip(i as int)[0] == args@[i as int]);
            assert(args@.skip(i as int).drop_first() =~= args@.skip(i + 1));
        }
        if args[i].arg_type == role {
            let texts = find_texts(values, args[i].var.as_str());
            let ghost textsv = spec_texts(values@, args@[i as int].var@);
            let ghost entry = map.deep_view();
            let mut j: usize = 0;
            proof {
                assert(textsv.skip(0) =~= textsv);
            }
            while j < texts.len()
                invariant
                    j <= texts.len(),
                    i < args.len(),
                    args@.len() == args.len(),
                    texts.deep_view() == textsv,
                    texts.deep_view().len() == texts.len(),
                    spec_upsert_texts(entry, args@[i as int].name@, textsv) == spec_upsert_texts(
                        map.deep_view(),
                        args@[i as int].name@,
                        textsv.skip(j as int),
                    ),
                decreases texts.len() - j,
            {
                proof {
                    assert(textsv.skip(j as int)[0] == textsv[j as int]);
                    assert(textsv.skip(j as int).drop_first() =~= textsv.skip(j + 1));
                    assert(texts[j as int]@ == textsv[j as int]);
                }
                upsert(map, args[i].name.clone(), texts[j].clone());
                j += 1;
            }
            proof {
                assert(textsv.skip(textsv.len() as int) =~= Seq::<Seq<char>>::empty());
            }
        }
        i += 1;
    }
    proof {
        assert(args@.skip(args@.len() as int) =~= Seq::<FnArg>::empty());
    }
}

/// Upserts parsed `headers=` pairs onto a map, substituting the
/// parameter map into each key and value first.
pub open spec fn spec_apply_header_pairs(
    acc: Seq<(Seq<char>, Seq<char>)>,
    pairs: Seq<(Seq<char>, Seq<char>)>,
    pm: Seq<(Seq<char>, Seq<char>)>,
) -> Seq<(Seq<char>, Seq<char>)>
    decreases pairs.len(),
{
    if pairs.len() == 0 {
        acc
    } else {
        spec_apply_header_pairs(
            spec_upsert(acc, apply_substs(pairs[0].0, pm), apply_substs(pairs[0].1, pm)),
            pairs.drop_first(),
            pm,
        )
    }
}

/// Applies parsed `headers=` pairs onto a map, substituting the
/// parameter map into keys and values.
pub fn apply_header_pairs(
    map: &mut Vec<(String, String)>,
    pairs: &Vec<(String, String)>,
    pm: &Vec<(String, String)>,
)
    ensures
        final(map).deep_view() == spec_apply_header_pairs(
            old(map).deep_view(),
            pairs.deep_view(),
            pm.deep_view(),
        ),
{
    let ghost acc0 = old(map).deep_view();
    let ghost pairsv = pairs.deep_view();
    let mut i: usize = 0;
    proof {
        assert(pairsv.skip(0) =~= pairsv);
    }
    while i < pairs.len()
        invariant
            i <= pairs.len(),
            pairs.deep_view() == pairsv,
            pairs.deep_view().len() == pairs.len(),
            spec_apply_header_pairs(acc0, pairsv, pm.deep_view()) == spec_apply_header_pairs(
                map.deep_view(),
                pairsv.skip(i as int),
                pm.deep_view(),
            ),
        decreases pairs.len() - i,
    {
        proof {
            assert(pairsv.skip(i as int)[0] == pairsv[i as int]);
            assert(pairsv.skip(i as int).drop_first() =~= pairsv.skip(i + 1));
            assert(pairs[i as int].0@ == pairsv[i as int].0);
            assert(pairs[i as int].1@ == pairsv[i as int].1);
        }
        let k = replace(pairs[i].0.as_str(), pm);
        let v = replace(pairs[i].1.as_str(), pm);
        upsert(map, k, v);
        i += 1;
    }
    proof {
        assert(pairsv.skip(pairsv.len() as int) =~= Seq::<(Seq<char>, Seq<char>)>::empty());
    }
}

/// Collects the two recognized config keys from the metadata entries,
/// substituting the parameter map into their values.
pub open spec fn spec_config_pairs_from(
    acc: Seq<(Seq<char>, Seq<char>)>,
    meta: Seq<(Seq<char>, Seq<char>)>,
    pm: Seq<(Seq<char>, Seq<char>)>,
) -> Seq<(Seq<char>, Seq<char>)>
    decreases meta.len(),
{
    if meta.len() == 0 {
        acc
    } else {
        let acc2 = if meta[0].0 == "connect_timeout"@ || meta[0].0 == "timeout"@ {
            spec_upsert(acc, meta[0].0, apply_substs(meta[0].1, pm))
        } else {
            acc
        };
        spec_config_pairs_from(acc2, meta.drop_first(), pm)
    }
}

/// Collects the `connect_timeout` and `timeout` entries, substituting
/// the parameter map into their values.
pub fn collect_config(meta: &Vec<(String, String)>, pm: &Vec<(String, String)>) -> (r: Vec<
    (String, String),
>)
    ensures
        r.deep_view() == spec_config_pairs_from(
            Seq::<(Seq<char>, Seq<char>)>::empty(),
            meta.deep_view(),
            pm.deep_view(),
        ),
{
    let ghost metav = meta.deep_view();
    let mut out: Vec<(String, String)> = Vec::new();
    let mut i: usize = 0;
    proof {
        assert(metav.skip(0) =~= metav);
        assert(out.deep_view() =~= Seq::<(Seq<char>, Seq<char>)>::empty());
    }
    while i < meta.len()
        invariant
            i <= meta.len(),
            meta.deep_view() == metav,
            meta.deep_view().len() == meta.len(),
            spec_config_pairs_from(Seq::<(Seq<char>, Seq<char>)>::empty(), metav, pm.deep_view())
                == spec_config_pairs_from(out.deep_view(), metav.skip(i as int), pm.deep_view()),
        decreases meta.len() - i,
    {
        proof {
            assert(metav.skip(i as int)[0] == metav[i as int]);
            assert(metav.skip(i as int).drop_first() =~= metav.skip(i + 1));
            assert(meta[i as int].0@ == metav[i as int].0);
            assert(meta[i as int].1@ == metav[i as int].1);
            reveal_strlit("connect_timeout");
            reveal_strlit("timeout");
        }
        if str_eq(meta[i].0.as_str(), "connect_timeout") || str_eq(meta[i].0.as_str(), "timeout") {
            let v = replace(meta[i].1.as_str(), pm);
            upsert(&mut out, meta[i].0.clone(), v);
        }
        i += 1;
    }
    proof {
        assert(metav.skip(metav.len() as int) =~= Seq::<(Seq<char>, Seq<char>)>::empty());
    }
    out
}

/// Builds one wire pair per text under one name.
fn build_texts_pairs(name: &String, texts: &Vec<String>) -> (r: Vec<(String, String)>)
    ensures
        r.deep_view() == spec_texts_pairs(name@, texts.deep_view()),
{
    let ghost textsv = texts.deep_view();
    let mut out: Vec<(String, String)> = Vec::new();
    let mut j: usize = 0;
    proof {
        assert(out.deep_view() =~= spec_texts_pairs(name@, textsv.take(0)));
    }
    while j < texts.len()
        invariant
            j <= texts.len(),
            texts.deep_view() == textsv,
            texts.deep_view().len() == texts.len(),
            out.deep_view() == spec_texts_pairs(name@, textsv.take(j as int)),
        decreases texts.len() - j,
    {
        let ghost dpre = out.deep_view();
        out.push((name.clone(), texts[j].clone()));
        proof {
            assert(texts@[j as int]@ == textsv[j as int]);
            assert(out.deep_view() =~= dpre.push((name@, textsv[j as int])));
            assert(dpre.push((name@, textsv[j as int])) =~= spec_texts_pairs(
                name@,
                textsv.take(j + 1),
            ));
        }
        j += 1;
    }
    proof {
        assert(textsv.take(textsv.len() as int) =~= textsv);
    }
    out
}

/// Whether every form-role argument has a scalar type.
pub open spec fn spec_all_forms_scalar(args: Seq<FnArg>) -> bool {
    forall|i: int|
        0 <= i < args.len() && (#[trigger] args[i]).arg_type == ArgType::FORM ==> spec_scalar_type(
            args[i].var_type,
        )
}

/// Checks that every form-role argument has a scalar type.
fn check_forms_scalar(args: &Vec<FnArg>) -> (r: bool)
    ensures
        r == spec_all_forms_scalar(args@),
{
    let mut i: usize = 0;
    while i < args.len()
        invariant
            i <= args.len(),
            forall|j: int|
                0 <= j < i && (#[trigger] args@[j]).arg_type == ArgType::FORM
                    ==> spec_scalar_type(args@[j].var_type),
        decreases args.len() - i,
    {
        let is_form = args[i].arg_type == ArgType::FORM;
        if is_form && !is_scalar_type(&args[i].var_type) {
            return false;
        }
        i += 1;
    }
    true
}

/// The send variant of a single form argument: a scalar or string
/// slice becomes one wire pair; a compound type is handed whole to the
/// structured form encoder; a reference to a scalar is refused.
pub open spec fn spec_single_form(a: FnArg, values: Seq<(String, ArgValue)>) -> Result<
    SendVariantView,
    BuildError,
> {
    match a.var_type {
        TypeRepr::Named(s) => if crate::args::spec_is_support_type(s@) {
            Result::Ok(SendVariantView::FormPairs(spec_texts_pairs(a.name@, spec_texts(values, a.var@))))
        } else {
            Result::Ok(SendVariantView::FormStructured)
        },
        TypeRepr::Sequence(_) => Result::Ok(SendVariantView::FormStructured),
        TypeRepr::Ref(b) => match *b {
            TypeRepr::Named(s) => if s@ == "str"@ {
                Result::Ok(SendVariantView::FormPairs(spec_texts_pairs(a.name@, spec_texts(values, a.var@))))
            } else if crate::args::spec_is_support_type(s@) {
                Result::Err(BuildError::UnsupportedFormCombination)
            } else {
                Result::Ok(SendVariantView::FormStructured)
            },
            _ => Result::Ok(SendVariantView::FormStructured),
        },
        _ => Result::Err(BuildError::UnsupportedFormCombination),
    }
}

/// The send variant the form arguments select: one argument follows
/// the single-form rule; two or more must all be scalars and become
/// one wire pair each.
pub open spec fn spec_form_fn(args: Seq<FnArg>, values: Seq<(String, ArgValue)>) -> Result<
    SendVariantView,
    BuildError,
> {
    let n = spec_count_role(args, ArgType::FORM);
    if n == 1 {
        match spec_first_role(args, ArgType::FORM) {
            Option::Some(a) => spec_single_form(a, values),
            Option::None => Result::Err(BuildError::UnsupportedFormCombination),
        }
    } else if n >= 2 {
        if spec_all_forms_scalar(args) {
            Result::Ok(SendVariantView::FormPairs(spec_role_pairs(args, values, ArgType::FORM, Option::None)))
        } else {
            Result::Err(BuildError::UnsupportedFormCombination)
        }
    } else {
        Result::Err(BuildError::UnsupportedFormCombination)
    }
}

/// Selects the send variant for the form arguments.
pub fn get_form_fn_call(args: &Vec<FnArg>, values: &Vec<(String, ArgValue)>) -> (r: Result<
    SendVariant,
    BuildError,
>)
    ensures
        match r {
            Result::Ok(s) => spec_form_fn(args@, values@) == Result::<
                SendVariantView,
                BuildError,
            >::Ok(s@),
            Result::Err(e) => spec_form_fn(args@, values@) == Result::<
                SendVariantView,
                BuildError,
            >::Err(e),
        },
{
    proof {
        reveal_strlit("str");
    }
    let n = count_role(args, ArgType::FORM);
    if n == 1 {
        match find_first_role(args, ArgType::FORM) {
            None => Err(BuildError::UnsupportedFormCombination),
            Some(i) => {
                let a = &args[i];
                match &a.var_type {
                    TypeRepr::Named(s) => {
                        if crate::args::is_support_types(s.as_str()) {
                            let texts = find_texts(values, a.var.as_str());
                            Ok(SendVariant::FormPairs(build_texts_pairs(&a.name, &texts)))
                        } else {
                            Ok(SendVariant::FormStructured)
                        }
                    },
                    TypeRepr::Sequence(_) => Ok(SendVariant::FormStructured),
                    TypeRepr::Ref(b) => match &**b {
                        TypeRepr::Named(s) => {
                            if str_eq(s.as_str(), "str") {
                                let texts = find_texts(values, a.var.as_str());
                                Ok(SendVariant::FormPairs(build_texts_pairs(&a.name, &texts)))
                            } else if crate::args::is_support_types(s.as_str()) {
                                Err(BuildError::UnsupportedFormCombination)
                            } else {
                                Ok(SendVariant::FormStructured)
                            }
                        },
                        _ => Ok(SendVariant::FormStructured),
                    },
                    _ => Err(BuildError::UnsupportedFormCombination),
                }
            },
        }
    } else if n >= 2 {
        if check_forms_scalar(args) {
            Ok(SendVariant::FormPairs(collect_role_pairs(args, values, ArgType::FORM, None)))
        } else {
            Err(BuildError::UnsupportedFormCombination)
        }
    } else {
        Err(BuildError::UnsupportedFormCombination)
    }
}

/// A verified copy of a pair list.
pub fn clone_pairs(v: &Vec<(String, String)>) -> (r: Vec<(String, String)>)
    ensures
        r.deep_view() == v.deep_view(),
        r@ == v@,
{
    let mut out: Vec<(String, String)> = Vec::new();
    let mut i: usize = 0;
    while i < v.len()
        invariant
            i <= v.len(),
            out@ =~= v@.take(i as int),
        decreases v.len() - i,
    {
        out.push((v[i].0.clone(), v[i].1.clone()));
        proof {
            assert(out@ =~= v@.take(i + 1));
        }
        i += 1;
    }
    proof {
        assert(out@ =~= v@);
        assert(out.deep_view() =~= v.deep_view());
    }
    out
}

/// The composed plan of one callable, once every validation has
/// passed: the substitution map feeds the config values and the
/// `headers=` entries; explicit header arguments override the
/// `headers=` entries, which override the ambient headers; the query
/// list appends the ambient pairs, the plain query pairs, then the
/// repeatable expansions; the URL takes the path substitutions.
pub open spec fn spec_compose(
    url_text: Seq<char>,
    method: Method,
    meta: Seq<(Seq<char>, Seq<char>)>,
    args: Seq<FnArg>,
    values: Seq<(String, ArgValue)>,
    send: SendVariantView,
    decode: DecodeVariant,
    hpairs: Seq<(Seq<char>, Seq<char>)>,
    am_params: Seq<(Seq<char>, Seq<char>)>,
    am_headers: Seq<(Seq<char>, Seq<char>)>,
    am_paths: Seq<(Seq<char>, Seq<char>)>,
    am_query: Seq<(Seq<char>, Seq<char>)>,
) -> RequestPlanView {
    let param_map = spec_role_map(am_params, args, values, ArgType::PARAM);
    let config = spec_config_pairs_from(Seq::empty(), meta, param_map);
    let headers = spec_role_map(
        spec_apply_header_pairs(am_headers, hpairs, param_map),
        args,
        values,
        ArgType::HEADER,
    );
    let path_map = spec_role_map(am_paths, args, values, ArgType::PATH);
    let query = am_query + spec_role_pairs(args, values, ArgType::QUERY, Option::Some(false))
        + spec_role_pairs(args, values, ArgType::QUERY, Option::Some(true));
    RequestPlanView {
        url: apply_substs(url_text, path_map),
        method,
        headers,
        path_map,
        query,
        config,
        send,
        decode,
    }
}

/// The whole composition of one annotated callable, validations
/// included, in order: the callable must be suspending; the parameters
/// must classify; a form argument and a body argument must not both be
/// present; at most one body argument; substitution arguments must be
/// scalars; the body or form arguments select the send variant; the
/// return type must be `Result`-shaped and selects the decode variant;
/// the `headers=` entry must be well-formed; then the plan is
/// composed.
pub open spec fn spec_fn_impl(
    url_text: Seq<char>,
    method: Method,
    meta: Seq<(Seq<char>, Seq<char>)>,
    decl: FnDecl,
    values: Seq<(String, ArgValue)>,
    am_params: Seq<(Seq<char>, Seq<char>)>,
    am_headers: Seq<(Seq<char>, Seq<char>)>,
    am_paths: Seq<(Seq<char>, Seq<char>)>,
    am_query: Seq<(Seq<char>, Seq<char>)>,
) -> Result<RequestPlanView, BuildError> {
    if !decl.is_async {
        Result::Err(BuildError::NotAsync)
    } else {
        match spec_parse_args(decl.params@, Option::Some(ArgType::QUERY)) {
            Result::Err(e) => Result::Err(e),
            Result::Ok(args) => {
                let nform = spec_count_role(args, ArgType::FORM);
                let nbody = spec_count_role(args, ArgType::BODY);
                if nform > 0 && nbody > 0 {
                    Result::Err(BuildError::BodyFormConflict)
                } else if nbody > 1 {
                    Result::Err(BuildError::MultipleBody)
                } else if !spec_params_ok(args) {
                    Result::Err(BuildError::UnsupportedParamType)
                } else {
                    let send_r: Result<SendVariantView, BuildError> = if nbody > 0 {
                        match spec_first_role(args, ArgType::BODY) {
                            Option::Some(a) => Result::Ok(spec_body_fn(a.var_type)),
                            Option::None => Result::Ok(SendVariantView::NoBody),
                        }
                    } else if nform > 0 {
                        spec_form_fn(args, values)
                    } else {
                        Result::Ok(SendVariantView::NoBody)
                    };
                    match send_r {
                        Result::Err(e) => Result::Err(e),
                        Result::Ok(send) => match spec_parse_return_type(decl.ret) {
                            Result::Err(e) => Result::Err(e),
                            Result::Ok(rt) => {
                                let hp_r = match crate::maps::spec_lookup(meta, "headers"@) {
                                    Option::None => Result::Ok(Seq::empty()),
                                    Option::Some(h) => spec_parse_header_values(h),
                                };
                                match hp_r {
                                    Result::Err(e) => Result::Err(e),
                                    Result::Ok(hpairs) => Result::Ok(
                                        spec_compose(
                                            url_text,
                                            method,
                                            meta,
                                            args,
                                            values,
                                            send,
                                            spec_return_fn(rt),
                                            hpairs,
                                            am_params,
                                            am_headers,
                                            am_paths,
                                            am_query,
                                        ),
                                    ),
                                }
                            },
                        },
                    }
                }
            },
        }
    }
}

/// Composes the request plan of one annotated callable from its
/// metadata, its declaration, the values bound to its parameters, and
/// the ambient context.
pub fn fn_impl(
    metadata: &FnMetadata,
    decl: &FnDecl,
    values: &Vec<(String, ArgValue)>,
    ambient: &AmbientMaps,
) -> (r: Result<RequestPlan, BuildError>)
    ensures
        ({
            let s = spec_fn_impl(
                metadata.url@,
                metadata.method,
                metadata.meta_map.deep_view(),
                *decl,
                values@,
                ambient.params.deep_view(),
                ambient.headers.deep_view(),
                ambient.paths.deep_view(),
                ambient.query.deep_view(),
            );
            match r {
                Result::Ok(p) => s == Result::<RequestPlanView, BuildError>::Ok(p@),
                Result::Err(e) => s == Result::<RequestPlanView, BuildError>::Err(e),
            }
        }),
{
    if !decl.is_async {
        return Err(BuildError::NotAsync);
    }
    let args = match parse_args_from_sig(&decl.params) {
        Ok(a) => a,
        Err(e) => {
            return Err(e);
        },
    };
    let nform = count_role(&args, ArgType::FORM);
    let nbody = count_role(&args, ArgType::BODY);
    if nform > 0 && nbody > 0 {
        return Err(BuildError::BodyFormConflict);
    }
    if nbody > 1 {
        return Err(BuildError::MultipleBody);
    }
    if !check_params(&args) {
        return Err(BuildError::UnsupportedParamType);
    }
    let send = if nbody > 0 {
        match find_first_role(&args, ArgType::BODY) {
            Some(i) => get_body_fn_call(&args[i].var_type),
            None => SendVariant::NoBody,
        }
    } else if nform > 0 {
        match get_form_fn_call(&args, values) {
            Ok(s) => s,
            Err(e) => {
                return Err(e);
            },
        }
    } else {
        SendVariant::NoBody
    };
    let rt = match parse_return_type(&decl.ret) {
        Ok(t) => t,
        Err(e) => {
            return Err(e);
        },
    };
    let decode = get_return_fn(&rt);
    let hpairs = match crate::maps::lookup(&metadata.meta_map, "headers") {
        Some(h) => match parse_header_values(h.as_str()) {
            Ok(p) => p,
            Err(e) => {
                return Err(e);
            },
        },
        None => {
            let v: Vec<(String, String)> = Vec::new();
            proof {
                assert(v.deep_view() =~= Seq::<(Seq<char>, Seq<char>)>::empty());
            }
            v
        },
    };
    let mut param_map = clone_pairs(&ambient.params);
    apply_role_map(&mut param_map, &args, values, ArgType::PARAM);
    let config = collect_config(&metadata.meta_map, &param_map);
    let mut headers = clone_pairs(&ambient.headers);
    apply_header_pairs(&mut headers, &hpairs, &param_map);
    apply_role_map(&mut headers, &args, values, ArgType::HEADER);
    let mut path_map = clone_pairs(&ambient.paths);
    apply_role_map(&mut path_map, &args, values, ArgType::PATH);
    let mut query = clone_pairs(&ambient.query);
    let mut q1 = collect_role_pairs(&args, values, ArgType::QUERY, Some(false));
    query.append(&mut q1);
    let mut q2 = collect_role_pairs(&args, values, ArgType::QUERY, Some(true));
    query.append(&mut q2);
    proof {
        assert(query.deep_view() =~= ambient.query.deep_view() + spec_role_pairs(
            args@,
            values@,
            ArgType::QUERY,
            Option::Some(false),
        ) + spec_role_pairs(args@, values@, ArgType::QUERY, Option::Some(true)));
    }
    let url = replace(metadata.url.as_str(), &path_map);
    Ok(
        RequestPlan {
            url,
            method: metadata.method,
            headers,
            path_map,
            query,
            config,
            send,
            decode,
        },
    )
}

/// For every argument list in which both a form-role and a body-role
/// argument occur, composition fails with the body-form conflict,
/// whatever else the declaration holds.
pub proof fn lemma_role_exclusivity(
    url_text: Seq<char>,
    method: Method,
    meta: Seq<(Seq<char>, Seq<char>)>,
    decl: FnDecl,
    values: Seq<(String, ArgValue)>,
    am_params: Seq<(Seq<char>, Seq<char>)>,
    am_headers: Seq<(Seq<char>, Seq<char>)>,
    am_paths: Seq<(Seq<char>, Seq<char>)>,
    am_query: Seq<(Seq<char>, Seq<char>)>,
    args: Seq<FnArg>,
)
    requires
        decl.is_async,
        spec_parse_args(decl.params@, Option::Some(ArgType::QUERY)) == Result::<
            Seq<FnArg>,
            BuildError,
        >::Ok(args),
        spec_count_role(args, ArgType::FORM) > 0,
        spec_count_role(args, ArgType::BODY) > 0,
    ensures
        spec_fn_impl(
            url_text,
            method,
            meta,
            decl,
            values,
            am_params,
            am_headers,
            am_paths,
            am_query,
        ) == Result::<RequestPlanView, BuildError>::Err(BuildError::BodyFormConflict),
{
}

/// Looking a key up after one name's texts were upserted: the name is
/// bound to its last text when there is one; every other key is
/// untouched.
pub proof fn lemma_upsert_texts_lookup(
    acc: Seq<(Seq<char>, Seq<char>)>,
    name: Seq<char>,
    texts: Seq<Seq<char>>,
    k: Seq<char>,
)
    ensures
        crate::maps::spec_lookup(spec_upsert_texts(acc, name, texts), k) == (if k == name
            && texts.len() > 0 {
            Option::Some(texts.last())
        } else {
            crate::maps::spec_lookup(acc, k)
        }),
    decreases texts.len(),
{
    if texts.len() > 0 {
        lemma_upsert_texts_lookup(spec_upsert(acc, name, texts[0]), name, texts.drop_first(), k);
        crate::maps::lemma_lookup_upsert(acc, name, texts[0], k);
        if texts.len() > 1 {
            assert(texts.drop_first().last() == texts.last());
        }
    }
}

/// The last value the arguments of a role bind under an exposed name:
/// the last text of the last such argument that has any text.
pub open spec fn spec_last_role_value(
    args: Seq<FnArg>,
    values: Seq<(String, ArgValue)>,
    role: ArgType,
    k: Seq<char>,
) -> Option<Seq<char>>
    decreases args.len(),
{
    if args.len() == 0 {
        Option::None
    } else {
        let r = spec_last_role_value(args.drop_first(), values, role, k);
        if r is Some {
            r
        } else if args[0].arg_type == role && args[0].name@ == k && spec_texts(
            values,
            args[0].var@,
        ).len() > 0 {
            Option::Some(spec_texts(values, args[0].var@).last())
        } else {
            Option::None
        }
    }
}

/// What a role map binds: a key some argument of the role binds takes
/// that argument's value; every other key keeps the base binding.
pub proof fn lemma_role_map_lookup(
    acc: Seq<(Seq<char>, Seq<char>)>,
    args: Seq<FnArg>,
    values: Seq<(String, ArgValue)>,
    role: ArgType,
    k: Seq<char>,
)
    ensures
        crate::maps::spec_lookup(spec_role_map(acc, args, values, role), k) == match spec_last_role_value(
            args,
            values,
            role,
            k,
        ) {
            Option::Some(v) => Option::Some(v),
            Option::None => crate::maps::spec_lookup(acc, k),
        },
    decreases args.len(),
{
    if args.len() > 0 {
        let acc2 = if args[0].arg_type == role {
            spec_upsert_texts(acc, args[0].name@, spec_texts(values, args[0].var@))
        } else {
            acc
        };
        lemma_role_map_lookup(acc2, args.drop_first(), values, role, k);
        if args[0].arg_type == role {
            lemma_upsert_texts_lookup(acc, args[0].name@, spec_texts(values, args[0].var@), k);
        }
    }
}

/// The last value the `headers=` entries bind under a key, after
/// substitution by the parameter map.
pub open spec fn spec_last_hpair_value(
    hpairs: Seq<(Seq<char>, Seq<char>)>,
    pm: Seq<(Seq<char>, Seq<char>)>,
    k: Seq<char>,
) -> Option<Seq<char>>
    decreases hpairs.len(),
{
    if hpairs.len() == 0 {
        Option::None
    } else {
        let r = spec_last_hpair_value(hpairs.drop_first(), pm, k);
        if r is Some {
            r
        } else if apply_substs(hpairs[0].0, pm) == k {
            Option::Some(apply_substs(hpairs[0].1, pm))
        } else {
            Option::None
        }
    }
}

/// What the `headers=` layer binds: a key it produces takes its value;
/// every other key keeps the ambient binding.
pub proof fn lemma_apply_header_pairs_lookup(
    acc: Seq<(Seq<char>, Seq<char>)>,
    hpairs: Seq<(Seq<char>, Seq<char>)>,
    pm: Seq<(Seq<char>, Seq<char>)>,
    k: Seq<char>,
)
    ensures
        crate::maps::spec_lookup(spec_apply_header_pairs(acc, hpairs, pm), k) == match spec_last_hpair_value(
            hpairs,
            pm,
            k,
        ) {
            Option::Some(v) => Option::Some(v),
            Option::None => crate::maps::spec_lookup(acc, k),
        },
    decreases hpairs.len(),
{
    if hpairs.len() > 0 {
        lemma_apply_header_pairs_lookup(
            spec_upsert(acc, apply_substs(hpairs[0].0, pm), apply_substs(hpairs[0].1, pm)),
            hpairs.drop_first(),
            pm,
            k,
        );
        crate::maps::lemma_lookup_upsert(
            acc,
            apply_substs(hpairs[0].0, pm),
            apply_substs(hpairs[0].1, pm),
            k,
        );
    }
}

/// Header precedence, explicit over bulk over ambient: a key bound by
/// an explicit header argument takes that argument's value, whatever
/// the `headers=` entries and the ambient headers say; a key bound
/// only by a `headers=` entry takes that entry's substituted value,
/// whatever the ambient headers say.
pub proof fn lemma_header_precedence(
    am_headers: Seq<(Seq<char>, Seq<char>)>,
    hpairs: Seq<(Seq<char>, Seq<char>)>,
    pm: Seq<(Seq<char>, Seq<char>)>,
    args: Seq<FnArg>,
    values: Seq<(String, ArgValue)>,
    k: Seq<char>,
)
    ensures
        spec_last_role_value(args, values, ArgType::HEADER, k) is Some ==> crate::maps::spec_lookup(
            spec_role_map(
                spec_apply_header_pairs(am_headers, hpairs, pm),
                args,
                values,
                ArgType::HEADER,
            ),
            k,
        ) == spec_last_role_value(args, values, ArgType::HEADER, k),
        spec_last_role_value(args, values, ArgType::HEADER, k) is None && spec_last_hpair_value(
            hpairs,
            pm,
            k,
        ) is Some ==> crate::maps::spec_lookup(
            spec_role_map(
                spec_apply_header_pairs(am_headers, hpairs, pm),
                args,
                values,
                ArgType::HEADER,
            ),
            k,
        ) == spec_last_hpair_value(hpairs, pm, k),
{
    lemma_role_map_lookup(
        spec_apply_header_pairs(am_headers, hpairs, pm),
        args,
        values,
        ArgType::HEADER,
        k,
    );
    lemma_apply_header_pairs_lookup(am_headers, hpairs, pm, k);
}

/// The text a URL operand stands for: a literal stands for its own
/// text; a reference stands for the value bound to its name, or for
/// its name where nothing is bound.
pub open spec fn spec_resolve_piece(
    p: crate::meta::UrlPieceView,
    env: Seq<(Seq<char>, Seq<char>)>,
) -> Seq<char> {
    match p {
        crate::meta::UrlPieceView::Lit(s) => s,
        crate::meta::UrlPieceView::Ref(n) => match crate::maps::spec_lookup(env, n) {
            Option::Some(v) => v,
            Option::None => n,
        },
    }
}

/// The call-time text of a URL expression: the resolved source with
/// the resolved path suffix appended.
pub open spec fn spec_resolve_url(
    u: crate::meta::UrlExprView,
    env: Seq<(Seq<char>, Seq<char>)>,
) -> Seq<char> {
    spec_resolve_piece(u.source, env) + (match u.path {
        Option::Some(p) => spec_resolve_piece(p, env),
        Option::None => Seq::<char>::empty(),
    })
}

fn resolve_piece(p: &crate::meta::UrlPiece, env: &Vec<(String, String)>) -> (r: String)
    ensures
        r@ == spec_resolve_piece(p@, env.deep_view()),
{
    match p {
        crate::meta::UrlPiece::Lit(s) => s.clone(),
        crate::meta::UrlPiece::Ref(n) => match crate::maps::lookup(env, n.as_str()) {
            Some(v) => v,
            None => n.clone(),
        },
    }
}

/// Resolves a URL expression against the bound constants.
pub fn resolve_url(u: &crate::meta::UrlExpr, env: &Vec<(String, String)>) -> (r: String)
    ensures
        r@ == spec_resolve_url(u@, env.deep_view()),
{
    let mut out = resolve_piece(&u.source, env);
    match &u.path {
        Some(p) => {
            let suffix = resolve_piece(p, env);
            out.append(suffix.as_str());
        },
        None => {
            proof {
                assert(out@ + Seq::<char>::empty() =~= out@);
            }
        },
    }
    out
}

/// One whole annotated free function: the URL expression and the
/// configuration are read out of the metadata text, the URL is
/// resolved against the bound constants, and the plan is composed with
/// an empty ambient context.
pub open spec fn spec_http_impl(
    method: Method,
    attr: Seq<char>,
    decl: FnDecl,
    values: Seq<(String, ArgValue)>,
    env: Seq<(Seq<char>, Seq<char>)>,
) -> Result<RequestPlanView, BuildError> {
    match crate::meta::spec_parse_url_stream(attr) {
        Result::Err(e) => Result::Err(e),
        Result::Ok(u) => spec_fn_impl(
            spec_resolve_url(u, env),
            method,
            crate::meta::spec_parse_exprs(attr),
            decl,
            values,
            Seq::empty(),
            Seq::empty(),
            Seq::empty(),
            Seq::empty(),
        ),
    }
}

/// Turns one annotated free function into a request plan: metadata
/// text, declaration shape, bound parameter values and bound URL
/// constants in, plan or failure out.  Empty metadata is always
/// refused, whatever the declaration.
pub fn http_impl(
    method: Method,
    attr: &str,
    decl: &FnDecl,
    values: &Vec<(String, ArgValue)>,
    env: &Vec<(String, String)>,
) -> (r: Result<RequestPlan, BuildError>)
    ensures
        ({
            let s = spec_http_impl(method, attr@, *decl, values@, env.deep_view());
            match r {
                Result::Ok(p) => s == Result::<RequestPlanView, BuildError>::Ok(p@),
                Result::Err(e) => s == Result::<RequestPlanView, BuildError>::Err(e),
            }
        }),
        spec_trim(attr@).len() == 0 ==> r == Result::<RequestPlan, BuildError>::Err(
            BuildError::NoMetadataAssigned,
        ),
{
    let url_expr = match crate::meta::parse_url_stream(attr) {
        Ok(u) => u,
        Err(e) => {
            return Err(e);
        },
    };
    let meta_map = crate::meta::parse_exprs(attr);
    let url = resolve_url(&url_expr, env);
    let metadata = FnMetadata { url, method, meta_map };
    let ambient = AmbientMaps::new();
    proof {
        assert(ambient.params.deep_view() =~= Seq::<(Seq<char>, Seq<char>)>::empty());
        assert(ambient.headers.deep_view() =~= Seq::<(Seq<char>, Seq<char>)>::empty());
        assert(ambient.paths.deep_view() =~= Seq::<(Seq<char>, Seq<char>)>::empty());
        assert(ambient.query.deep_view() =~= Seq::<(Seq<char>, Seq<char>)>::empty());
    }
    fn_impl(&metadata, decl, values, &ambient)
}

} // verus!
