//! The parameter classifier: every parameter of an annotated callable
//! (or field of an aggregate) is read together with its role
//! annotations into a flat list of classified arguments.

use vstd::prelude::*;
use crate::error::BuildError;
use crate::lexicon::ArgType;
use crate::strutil::lower_seq;

verus! {

/// The declared type of a parameter, as far as classification needs it.
#[derive(Debug)]
pub enum TypeRepr {
    /// A plain named type: a scalar, `String`, or a user record type.
    Named(String),
    /// The unit type.
    Unit,
    /// A reference `&T`.
    Ref(Box<TypeRepr>),
    /// A slice `[T]`.
    Slice(Box<TypeRepr>),
    /// A growable sequence `Vec<T>`.
    Sequence(Box<TypeRepr>),
    /// A fixed-size array `[T; n]`.
    Array(Box<TypeRepr>, usize),
    /// A `Result<T, _>` return shape; only the success type is kept.
    ResultOf(Box<TypeRepr>),
}

/// A verified deep copy of a type representation.
pub fn clone_type(t: &TypeRepr) -> (r: TypeRepr)
    ensures
        r == *t,
    decreases *t,
{
    match t {
        TypeRepr::Named(s) => TypeRepr::Named(s.clone()),
        TypeRepr::Unit => TypeRepr::Unit,
        TypeRepr::Ref(b) => TypeRepr::Ref(Box::new(clone_type(b))),
        TypeRepr::Slice(b) => TypeRepr::Slice(Box::new(clone_type(b))),
        TypeRepr::Sequence(b) => TypeRepr::Sequence(Box::new(clone_type(b))),
        TypeRepr::Array(b, n) => TypeRepr::Array(Box::new(clone_type(b)), *n),
        TypeRepr::ResultOf(b) => TypeRepr::ResultOf(Box::new(clone_type(b))),
    }
}

/// One role annotation attached to a parameter: the role token and an
/// optional exposed-name override.
#[derive(Debug)]
pub struct RoleAnn {
    pub token: String,
    pub name: Option<String>,
}

/// One declared parameter: its binding identifier, its declared type,
/// and its role annotations.
#[derive(Debug)]
pub struct ParamDecl {
    pub name: String,
    pub ty: TypeRepr,
    pub anns: Vec<RoleAnn>,
}

/// One classified argument.
#[derive(Debug)]
pub struct FnArg {
    pub arg_type: ArgType,
    pub name: String,
    pub var: String,
    pub var_type: TypeRepr,
}

/// The type names accepted for scalar wire values.
pub open spec fn spec_is_support_type(s: Seq<char>) -> bool {
    ||| s == "bool"@
    ||| s == "u8"@
    ||| s == "u16"@
    ||| s == "u32"@
    ||| s == "u64"@
    ||| s == "i8"@
    ||| s == "i16"@
    ||| s == "i32"@
    ||| s == "i64"@
    ||| s == "f32"@
    ||| s == "f64"@
    ||| s == "char"@
    ||| s == "String"@
    ||| s == "&str"@
}

/// Whether a type name is on the scalar allow-list.
pub fn is_support_types(t: &str) -> (r: bool)
    ensures
        r == spec_is_support_type(t@),
{
    crate::strutil::str_eq(t, "bool") || crate::strutil::str_eq(t, "u8") || crate::strutil::str_eq(
        t,
        "u16",
    ) || crate::strutil::str_eq(t, "u32") || crate::strutil::str_eq(t, "u64")
        || crate::strutil::str_eq(t, "i8") || crate::strutil::str_eq(t, "i16")
        || crate::strutil::str_eq(t, "i32") || crate::strutil::str_eq(t, "i64")
        || crate::strutil::str_eq(t, "f32") || crate::strutil::str_eq(t, "f64")
        || crate::strutil::str_eq(t, "char") || crate::strutil::str_eq(t, "String")
        || crate::strutil::str_eq(t, "&str")
}

/// A scalar wire type: a named type on the allow-list, or `&str`.
pub open spec fn spec_scalar_type(t: TypeRepr) -> bool {
    match t {
        TypeRepr::Named(s) => spec_is_support_type(s@),
        TypeRepr::Ref(b) => match *b {
            TypeRepr::Named(s) => s@ == "str"@,
            _ => false,
        },
        _ => false,
    }
}

/// Whether a type is a scalar wire type.
pub fn is_scalar_type(t: &TypeRepr) -> (r: bool)
    ensures
        r == spec_scalar_type(*t),
{
    proof {
        reveal_strlit("str");
    }
    match t {
        TypeRepr::Named(s) => is_support_types(s.as_str()),
        TypeRepr::Ref(b) => match &**b {
            TypeRepr::Named(s) => crate::strutil::str_eq(s.as_str(), "str"),
            _ => false,
        },
        _ => false,
    }
}

/// A repeatable sequence type: `Vec<T>`, `&Vec<T>` or `&[T]`.
pub open spec fn spec_seq_type(t: TypeRepr) -> bool {
    match t {
        TypeRepr::Sequence(_) => true,
        TypeRepr::Ref(b) => match *b {
            TypeRepr::Sequence(_) => true,
            TypeRepr::Slice(_) => true,
            _ => false,
        },
        _ => false,
    }
}

/// Whether a type is a repeatable sequence type.
pub fn is_seq_type(t: &TypeRepr) -> (r: bool)
    ensures
        r == spec_seq_type(*t),
{
    match t {
        TypeRepr::Sequence(_) => true,
        TypeRepr::Ref(b) => match &**b {
            TypeRepr::Sequence(_) => true,
            TypeRepr::Slice(_) => true,
            _ => false,
        },
        _ => false,
    }
}

/// The outward shapes a parameter may have: plain named, sequence,
/// reference, or fixed array.
pub open spec fn spec_shape_ok(t: TypeRepr) -> bool {
    match t {
        TypeRepr::Named(_) => true,
        TypeRepr::Sequence(_) => true,
        TypeRepr::Ref(_) => true,
        TypeRepr::Array(_, _) => true,
        _ => false,
    }
}

/// The role a lower-cased annotation token names, if any.
pub open spec fn spec_role_of(t: Seq<char>) -> Option<ArgType> {
    if ArgType::HEADER.token_names(t) {
        Option::Some(ArgType::HEADER)
    } else if ArgType::PATH.token_names(t) {
        Option::Some(ArgType::PATH)
    } else if ArgType::QUERY.token_names(t) {
        Option::Some(ArgType::QUERY)
    } else if ArgType::FORM.token_names(t) {
        Option::Some(ArgType::FORM)
    } else if ArgType::BODY.token_names(t) {
        Option::Some(ArgType::BODY)
    } else if ArgType::PARAM.token_names(t) {
        Option::Some(ArgType::PARAM)
    } else {
        Option::None
    }
}

/// The classified arguments one parameter contributes: one per role
/// annotation, under the annotation's name override or the binding
/// name.
pub open spec fn spec_classify_anns(p: ParamDecl, anns: Seq<RoleAnn>) -> Result<
    Seq<FnArg>,
    BuildError,
>
    decreases anns.len(),
{
    if anns.len() == 0 {
        Result::Ok(Seq::empty())
    } else {
        match spec_role_of(lower_seq(anns[0].token@)) {
            Option::None => Result::Err(BuildError::UnknownRole),
            Option::Some(role) => {
                let name = match anns[0].name {
                    Option::Some(n) => n,
                    Option::None => p.name,
                };
                match spec_classify_anns(p, anns.drop_first()) {
                    Result::Err(e) => Result::Err(e),
                    Result::Ok(rest) => Result::Ok(
                        seq![
                            FnArg {
                                arg_type: role,
                                name: name,
                                var: p.name,
                                var_type: p.ty,
                            },
                        ] + rest,
                    ),
                }
            },
        }
    }
}

/// The classified arguments of one parameter: its annotations, or the
/// default role when it has none and a default applies.
pub open spec fn spec_classify_param(p: ParamDecl, default: Option<ArgType>) -> Result<
    Seq<FnArg>,
    BuildError,
> {
    if !spec_shape_ok(p.ty) {
        Result::Err(BuildError::UnsupportedArgShape)
    } else if p.anns@.len() == 0 {
        match default {
            Option::Some(role) => Result::Ok(
                seq![FnArg { arg_type: role, name: p.name, var: p.name, var_type: p.ty }],
            ),
            Option::None => Result::Ok(Seq::empty()),
        }
    } else {
        spec_classify_anns(p, p.anns@)
    }
}

/// The whole classified argument list of a parameter list.
pub open spec fn spec_parse_args(params: Seq<ParamDecl>, default: Option<ArgType>) -> Result<
    Seq<FnArg>,
    BuildError,
>
    decreases params.len(),
{
    if params.len() == 0 {
        Result::Ok(Seq::empty())
    } else {
        match spec_classify_param(params[0], default) {
            Result::Err(e) => Result::Err(e),
            Result::Ok(own) => match spec_parse_args(params.drop_first(), default) {
                Result::Err(e) => Result::Err(e),
                Result::Ok(rest) => Result::Ok(own + rest),
            },
        }
    }
}

/// Classifies the annotations of one parameter.
fn classify_anns(p: &ParamDecl) -> (r: Result<Vec<FnArg>, BuildError>)
    ensures
        match r {
            Result::Ok(v) => spec_classify_anns(*p, p.anns@) == Result::<
                Seq<FnArg>,
                BuildError,
            >::Ok(v@),
            Result::Err(e) => spec_classify_anns(*p, p.anns@) == Result::<
                Seq<FnArg>,
                BuildError,
            >::Err(e),
        },
{
    let mut out: Vec<FnArg> = Vec::new();
    let mut i: usize = 0;
    proof {
        assert(p.anns@.skip(0) =~= p.anns@);
    }
    while i < p.anns.len()
        invariant
            i <= p.anns.len(),
            ({
                let full = spec_classify_anns(*p, p.anns@);
                let rest = spec_classify_anns(*p, p.anns@.skip(i as int));
                match rest {
                    Result::Ok(tail) => full == Result::<Seq<FnArg>, BuildError>::Ok(out@ + tail),
                    Result::Err(e) => full == Result::<Seq<FnArg>, BuildError>::Err(e),
                }
            }),
        decreases p.anns.len() - i,
    {
        proof {
            assert(p.anns@.skip(i as int)[0] == p.anns@[i as int]);
            assert(p.anns@.skip(i as int).drop_first() =~= p.anns@.skip(i + 1));
        }
        let ann = &p.anns[i];
        match ArgType::from_str(ann.token.as_str()) {
            Err(_) => {
                proof {
                    let t = lower_seq(p.anns@[i as int].token@);
                    assert(spec_role_of(t) is None);
                }
                return Err(BuildError::UnknownRole);
            },
            Ok(role) => {
                let name = match &ann.name {
                    Some(n) => n.clone(),
                    None => p.name.clone(),
                };
                let arg = FnArg {
                    arg_type: role,
                    name,
                    var: p.name.clone(),
                    var_type: clone_type(&p.ty),
                };
                proof {
                    let t = lower_seq(p.anns@[i as int].token@);
                    assert(spec_role_of(t) == Option::Some(role));
                }
                let ghost prev = out@;
                out.push(arg);
                proof {
                    let spec_arg = FnArg {
                        arg_type: role,
                        name: match p.anns@[i as int].name {
                            Option::Some(n) => n,
                            Option::None => p.name,
                        },
                        var: p.name,
                        var_type: p.ty,
                    };
                    assert(out@.last() == spec_arg);
                    let rest = spec_classify_anns(*p, p.anns@.skip(i + 1));
                    if rest is Ok {
                        assert(out@ + rest->Ok_0 =~= prev + (seq![spec_arg] + rest->Ok_0));
                    }
                }
            },
        }
        i += 1;
    }
    proof {
        assert(p.anns@.skip(p.anns@.len() as int) =~= Seq::<RoleAnn>::empty());
        assert(out@ + Seq::<FnArg>::empty() =~= out@);
    }
    Ok(out)
}

/// Classifies one parameter, applying the default role when it carries
/// no annotation.
fn classify_param(p: &ParamDecl, default: Option<ArgType>) -> (r: Result<Vec<FnArg>, BuildError>)
    ensures
        match r {
            Result::Ok(v) => spec_classify_param(*p, default) == Result::<
                Seq<FnArg>,
                BuildError,
            >::Ok(v@),
            Result::Err(e) => spec_classify_param(*p, default) == Result::<
                Seq<FnArg>,
                BuildError,
            >::Err(e),
        },
{
    let shape_ok = match &p.ty {
        TypeRepr::Named(_) => true,
        TypeRepr::Sequence(_) => true,
        TypeRepr::Ref(_) => true,
        TypeRepr::Array(_, _) => true,
        _ => false,
    };
    if !shape_ok {
        return Err(BuildError::UnsupportedArgShape);
    }
    if p.anns.len() == 0 {
        match default {
            Some(role) => {
                let arg = FnArg {
                    arg_type: role,
                    name: p.name.clone(),
                    var: p.name.clone(),
                    var_type: clone_type(&p.ty),
                };
                let mut v: Vec<FnArg> = Vec::new();
                v.push(arg);
                proof {
                    assert(v@ =~= seq![
                        FnArg { arg_type: role, name: p.name, var: p.name, var_type: p.ty },
                    ]);
                }
                Ok(v)
            },
            None => Ok(Vec::new()),
        }
    } else {
        classify_anns(p)
    }
}

/// Classifies a whole parameter list.
fn parse_args(params: &Vec<ParamDecl>, default: Option<ArgType>) -> (r: Result<
    Vec<FnArg>,
    BuildError,
>)
    ensures
        match r {
            Result::Ok(v) => spec_parse_args(params@, default) == Result::<
                Seq<FnArg>,
                BuildError,
            >::Ok(v@),
            Result::Err(e) => spec_parse_args(params@, default) == Result::<
                Seq<FnArg>,
                BuildError,
            >::Err(e),
        },
{
    let mut out: Vec<FnArg> = Vec::new();
    let mut i: usize = 0;
    proof {
        assert(params@.skip(0) =~= params@);
    }
    while i < params.len()
        invariant
            i <= params.len(),
            ({
                let full = spec_parse_args(params@, default);
                let rest = spec_parse_args(params@.skip(i as int), default);
                match rest {
                    Result::Ok(tail) => full == Result::<Seq<FnArg>, BuildError>::Ok(out@ + tail),
                    Result::Err(e) => full == Result::<Seq<FnArg>, BuildError>::Err(e),
                }
            }),
        decreases params.len() - i,
    {
        proof {
            assert(params@.skip(i as int)[0] == params@[i as int]);
            assert(params@.skip(i as int).drop_first() =~= params@.skip(i + 1));
        }
        match classify_param(&params[i], default) {
            Err(e) => {
                return Err(e);
            },
            Ok(own) => {
                let ghost prev = out@;
                let ghost ownv = own@;
                let mut own = own;
                out.append(&mut own);
                proof {
                    let rest = spec_parse_args(params@.skip(i + 1), default);
                    if rest is Ok {
                        assert(out@ + rest->Ok_0 =~= prev + (ownv + rest->Ok_0));
                    }
                }
            },
        }
        i += 1;
    }
    proof {
        assert(params@.skip(params@.len() as int) =~= Seq::<ParamDecl>::empty());
        assert(out@ + Seq::<FnArg>::empty() =~= out@);
    }
    Ok(out)
}

/// Classifies the parameters of a free callable: a parameter without a
/// role annotation defaults to the query role.
pub fn parse_args_from_sig(params: &Vec<ParamDecl>) -> (r: Result<Vec<FnArg>, BuildError>)
    ensures
        match r {
            Result::Ok(v) => spec_parse_args(params@, Some(ArgType::QUERY)) == Result::<
                Seq<FnArg>,
                BuildError,
            >::Ok(v@),
            Result::Err(e) => spec_parse_args(params@, Some(ArgType::QUERY)) == Result::<
                Seq<FnArg>,
                BuildError,
            >::Err(e),
        },
{
    parse_args(params, Some(ArgType::QUERY))
}

/// Classifies the fields of an aggregate: a field without a role
/// annotation takes no part.
pub fn parse_args_from_struct(fields: &Vec<ParamDecl>) -> (r: Result<Vec<FnArg>, BuildError>)
    ensures
        match r {
            Result::Ok(v) => spec_parse_args(fields@, None) == Result::<
                Seq<FnArg>,
                BuildError,
            >::Ok(v@),
            Result::Err(e) => spec_parse_args(fields@, None) == Result::<
                Seq<FnArg>,
                BuildError,
            >::Err(e),
        },
{
    parse_args(fields, None)
}

} // verus!
