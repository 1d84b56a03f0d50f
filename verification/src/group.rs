//! The group composer: several annotated methods share one base URL
//! and one base configuration; each member layers its own verb, path
//! fragment and configuration on top and is then composed like a free
//! callable.  An aggregate's role-annotated fields supply the ambient
//! context its methods are composed with.

use vstd::prelude::*;
use crate::args::{parse_args_from_struct, spec_parse_args, FnArg, ParamDecl};
use crate::error::BuildError;
use crate::lexicon::{ArgType, Method};
use crate::maps::{spec_lookup, spec_upsert, upsert};
use crate::meta::{seg_assign, spec_is_quoted, spec_parse_exprs, spec_unquote};
use crate::plan::{AmbientMaps, ArgValue, FnDecl, RequestPlan, RequestPlanView};
use crate::strutil::{spec_split_quoted, spec_trim, split_quoted, trim_str};

verus! {

/// The `path` fragment a member's metadata opens with, if any: a bare
/// string literal, or a `path = "..."` assignment first.  Any other
/// leading segment is refused; empty metadata carries no fragment.
pub open spec fn spec_parse_fn_path(attr: Seq<char>) -> Result<Option<Seq<char>>, BuildError> {
    if spec_trim(attr).len() == 0 {
        Result::Ok(Option::None)
    } else {
        let s0 = spec_trim(spec_split_quoted(attr, ',', false)[0]);
        if spec_is_quoted(s0) {
            Result::Ok(Option::Some(spec_unquote(s0)))
        } else {
            match seg_assign(s0) {
                Option::Some((k, rhs)) => if k == "path"@ && spec_is_quoted(rhs) {
                    Result::Ok(Option::Some(spec_unquote(rhs)))
                } else {
                    Result::Err(BuildError::PathOverrideMissing)
                },
                Option::None => Result::Err(BuildError::PathOverrideMissing),
            }
        }
    }
}

/// Reads the leading `path` fragment of a member's metadata.
pub fn parse_fn_path(attr: &str) -> (r: Result<Option<String>, BuildError>)
    ensures
        match r {
            Result::Ok(Option::Some(p)) => spec_parse_fn_path(attr@) == Result::<
                Option<Seq<char>>,
                BuildError,
            >::Ok(Option::Some(p@)),
            Result::Ok(Option::None) => spec_parse_fn_path(attr@) == Result::<
                Option<Seq<char>>,
                BuildError,
            >::Ok(Option::None),
            Result::Err(e) => spec_parse_fn_path(attr@) == Result::<
                Option<Seq<char>>,
                BuildError,
            >::Err(e),
        },
{
    proof {
        reveal_strlit("path");
    }
    let trimmed = trim_str(attr);
    if trimmed.unicode_len() == 0 {
        return Ok(None);
    }
    let segs = split_quoted(attr, ',');
    proof {
        assert(segs[0]@ == spec_split_quoted(attr@, ',', false)[0]);
    }
    let s0 = trim_str(segs[0].as_str());
    if crate::meta::is_quoted_x(s0) {
        return Ok(Some(crate::meta::unquote_x(s0)));
    }
    match crate::meta::seg_assign_x(s0) {
        Some((k, rhs)) => {
            if crate::strutil::str_eq(k.as_str(), "path") && crate::meta::is_quoted_x(
                rhs.as_str(),
            ) {
                Ok(Some(crate::meta::unquote_x(rhs.as_str())))
            } else {
                Err(BuildError::PathOverrideMissing)
            }
        },
        None => Err(BuildError::PathOverrideMissing),
    }
}

/// Overlays the second pair list onto the first: every key the overlay
/// holds takes the overlay's value, keys keep their first position.
pub open spec fn spec_merge_pairs(
    base: Seq<(Seq<char>, Seq<char>)>,
    over: Seq<(Seq<char>, Seq<char>)>,
) -> Seq<(Seq<char>, Seq<char>)>
    decreases over.len(),
{
    if over.len() == 0 {
        base
    } else {
        spec_merge_pairs(spec_upsert(base, over[0].0, over[0].1), over.drop_first())
    }
}

/// Overlays a pair list onto a base map in place.
pub fn merge_pairs(base: &mut Vec<(String, String)>, over: &Vec<(String, String)>)
    ensures
        final(base).deep_view() == spec_merge_pairs(old(base).deep_view(), over.deep_view()),
{
    let ghost b0 = old(base).deep_view();
    let ghost ov = over.deep_view();
    let mut i: usize = 0;
    proof {
        assert(ov.skip(0) =~= ov);
    }
    while i < over.len()
        invariant
            i <= over.len(),
            over.deep_view() == ov,
            over.deep_view().len() == over.len(),
            spec_merge_pairs(b0, ov) == spec_merge_pairs(base.deep_view(), ov.skip(i as int)),
        decreases over.len() - i,
    {
        proof {
            assert(ov.skip(i as int)[0] == ov[i as int]);
            assert(ov.skip(i as int).drop_first() =~= ov.skip(i + 1));
            assert(over[i as int].0@ == ov[i as int].0);
            assert(over[i as int].1@ == ov[i as int].1);
        }
        upsert(base, over[i].0.clone(), over[i].1.clone());
        i += 1;
    }
    proof {
        assert(ov.skip(ov.len() as int) =~= Seq::<(Seq<char>, Seq<char>)>::empty());
    }
}

/// The value of the last entry of a key, if the key occurs at all.
pub open spec fn spec_lookup_last(pairs: Seq<(Seq<char>, Seq<char>)>, k: Seq<char>) -> Option<
    Seq<char>,
>
    decreases pairs.len(),
{
    if pairs.len() == 0 {
        Option::None
    } else {
        let r = spec_lookup_last(pairs.drop_first(), k);
        if r is Some {
            r
        } else if pairs[0].0 == k {
            Option::Some(pairs[0].1)
        } else {
            Option::None
        }
    }
}

/// What the merged map binds: a key the overlay holds takes the
/// overlay's last value for it; every other key keeps the base's
/// binding.  In particular a member-level configuration entry always
/// overrides the group-level entry of the same key.
pub proof fn lemma_config_override(
    base: Seq<(Seq<char>, Seq<char>)>,
    over: Seq<(Seq<char>, Seq<char>)>,
    k: Seq<char>,
)
    ensures
        spec_lookup(spec_merge_pairs(base, over), k) == match spec_lookup_last(over, k) {
            Option::Some(v) => Option::Some(v),
            Option::None => spec_lookup(base, k),
        },
    decreases over.len(),
{
    if over.len() > 0 {
        lemma_config_override(spec_upsert(base, over[0].0, over[0].1), over.drop_first(), k);
        crate::maps::lemma_lookup_upsert(base, over[0].0, over[0].1, k);
    }
}

/// An aggregate whose role-annotated fields supply shared request
/// collections to every method of its group.
pub trait FeignClient {
    fn param_map(&self) -> Vec<(String, String)>;

    fn header_map(&self) -> Vec<(String, String)>;

    fn path_map(&self) -> Vec<(String, String)>;

    fn query_map(&self) -> Vec<(String, String)>;
}

/// The classified fields of an aggregate together with the values
/// bound to them: the source of the ambient context.
pub struct ClientFields {
    pub args: Vec<FnArg>,
    pub values: Vec<(String, ArgValue)>,
}

/// Classifies the fields of an aggregate and binds their values.
pub fn client_fn_impl(fields: &Vec<ParamDecl>, values: Vec<(String, ArgValue)>) -> (r: Result<
    ClientFields,
    BuildError,
>)
    ensures
        match r {
            Result::Ok(c) => spec_parse_args(fields@, Option::None) == Result::<
                Seq<FnArg>,
                BuildError,
            >::Ok(c.args@) && c.values == values,
            Result::Err(e) => spec_parse_args(fields@, Option::None) == Result::<
                Seq<FnArg>,
                BuildError,
            >::Err(e),
        },
{
    match parse_args_from_struct(fields) {
        Ok(args) => Ok(ClientFields { args, values }),
        Err(e) => Err(e),
    }
}

impl ClientFields {
    /// The substitution-field map.
    pub fn param_map(&self) -> (r: Vec<(String, String)>)
        ensures
            r.deep_view() == crate::plan::spec_role_map(
                Seq::<(Seq<char>, Seq<char>)>::empty(),
                self.args@,
                self.values@,
                ArgType::PARAM,
            ),
    {
        let mut m: Vec<(String, String)> = Vec::new();
        proof {
            assert(m.deep_view() =~= Seq::<(Seq<char>, Seq<char>)>::empty());
        }
        crate::plan::apply_role_map(&mut m, &self.args, &self.values, ArgType::PARAM);
        m
    }

    /// The header-field map.
    pub fn header_map(&self) -> (r: Vec<(String, String)>)
        ensures
            r.deep_view() == crate::plan::spec_role_map(
                Seq::<(Seq<char>, Seq<char>)>::empty(),
                self.args@,
                self.values@,
                ArgType::HEADER,
            ),
    {
        let mut m: Vec<(String, String)> = Vec::new();
        proof {
            assert(m.deep_view() =~= Seq::<(Seq<char>, Seq<char>)>::empty());
        }
        crate::plan::apply_role_map(&mut m, &self.args, &self.values, ArgType::HEADER);
        m
    }

    /// The path-field map.
    pub fn path_map(&self) -> (r: Vec<(String, String)>)
        ensures
            r.deep_view() == crate::plan::spec_role_map(
                Seq::<(Seq<char>, Seq<char>)>::empty(),
                self.args@,
                self.values@,
                ArgType::PATH,
            ),
    {
        let mut m: Vec<(String, String)> = Vec::new();
        proof {
            assert(m.deep_view() =~= Seq::<(Seq<char>, Seq<char>)>::empty());
        }
        crate::plan::apply_role_map(&mut m, &self.args, &self.values, ArgType::PATH);
        m
    }

    /// The query-field list: plain fields first, then the repeatable
    /// expansions, elements in order.
    pub fn query_map(&self) -> (r: Vec<(String, String)>)
        ensures
            r.deep_view() == crate::plan::spec_role_pairs(
                self.args@,
                self.values@,
                ArgType::QUERY,
                Option::Some(false),
            ) + crate::plan::spec_role_pairs(
                self.args@,
                self.values@,
                ArgType::QUERY,
                Option::Some(true),
            ),
    {
        let mut q = crate::plan::collect_role_pairs(
            &self.args,
            &self.values,
            ArgType::QUERY,
            Some(false),
        );
        let mut q2 = crate::plan::collect_role_pairs(
            &self.args,
            &self.values,
            ArgType::QUERY,
            Some(true),
        );
        q.append(&mut q2);
        proof {
            assert(q.deep_view() =~= crate::plan::spec_role_pairs(
                self.args@,
                self.values@,
                ArgType::QUERY,
                Option::Some(false),
            ) + crate::plan::spec_role_pairs(
                self.args@,
                self.values@,
                ArgType::QUERY,
                Option::Some(true),
            ));
        }
        q
    }

    /// The whole ambient context the fields supply.
    pub fn ambient(&self) -> (r: AmbientMaps)
        ensures
            r.params.deep_view() == crate::plan::spec_role_map(
                Seq::<(Seq<char>, Seq<char>)>::empty(),
                self.args@,
                self.values@,
                ArgType::PARAM,
            ),
            r.headers.deep_view() == crate::plan::spec_role_map(
                Seq::<(Seq<char>, Seq<char>)>::empty(),
                self.args@,
                self.values@,
                ArgType::HEADER,
            ),
            r.paths.deep_view() == crate::plan::spec_role_map(
                Seq::<(Seq<char>, Seq<char>)>::empty(),
                self.args@,
                self.values@,
                ArgType::PATH,
            ),
            r.query.deep_view() == crate::plan::spec_role_pairs(
                self.args@,
                self.values@,
                ArgType::QUERY,
                Option::Some(false),
            ) + crate::plan::spec_role_pairs(
                self.args@,
                self.values@,
                ArgType::QUERY,
                Option::Some(true),
            ),
    {
        AmbientMaps {
            params: ClientFields::param_map(self),
            headers: ClientFields::header_map(self),
            paths: ClientFields::path_map(self),
            query: ClientFields::query_map(self),
        }
    }
}

impl FeignClient for ClientFields {
    fn param_map(&self) -> Vec<(String, String)> {
        ClientFields::param_map(self)
    }

    fn header_map(&self) -> Vec<(String, String)> {
        ClientFields::header_map(self)
    }

    fn path_map(&self) -> Vec<(String, String)> {
        ClientFields::path_map(self)
    }

    fn query_map(&self) -> Vec<(String, String)> {
        ClientFields::query_map(self)
    }
}

/// One member of a group: its verb token, its own metadata text, its
/// declaration, and the values bound to its parameters.
pub struct MemberDecl {
    pub verb: String,
    pub attr: String,
    pub decl: FnDecl,
    pub values: Vec<(String, ArgValue)>,
}

/// The method a lower-cased verb token names, if any.
pub open spec fn spec_method_of(s: Seq<char>) -> Option<Method> {
    if crate::strutil::lower_seq(s) == "get"@ {
        Option::Some(Method::GET)
    } else if crate::strutil::lower_seq(s) == "post"@ {
        Option::Some(Method::POST)
    } else if crate::strutil::lower_seq(s) == "put"@ {
        Option::Some(Method::PUT)
    } else if crate::strutil::lower_seq(s) == "delete"@ {
        Option::Some(Method::DELETE)
    } else {
        Option::None
    }
}

/// The plan of one group member: its verb must name a method, its
/// leading metadata segment must be a path fragment if present, its
/// effective URL appends that fragment to the base URL, and its
/// effective configuration overlays its own entries on the base
/// configuration.
pub open spec fn spec_member_plan(
    base_url: Seq<char>,
    base_meta: Seq<(Seq<char>, Seq<char>)>,
    m: MemberDecl,
    am_params: Seq<(Seq<char>, Seq<char>)>,
    am_headers: Seq<(Seq<char>, Seq<char>)>,
    am_paths: Seq<(Seq<char>, Seq<char>)>,
    am_query: Seq<(Seq<char>, Seq<char>)>,
) -> Result<RequestPlanView, BuildError> {
    match spec_method_of(m.verb@) {
        Option::None => Result::Err(BuildError::UnknownMethod),
        Option::Some(method) => match spec_parse_fn_path(m.attr@) {
            Result::Err(e) => Result::Err(e),
            Result::Ok(p) => {
                let url = base_url + (match p {
                    Option::Some(f) => f,
                    Option::None => Seq::<char>::empty(),
                });
                let meta = spec_merge_pairs(base_meta, spec_parse_exprs(m.attr@));
                crate::plan::spec_fn_impl(
                    url,
                    method,
                    meta,
                    m.decl,
                    m.values@,
                    am_params,
                    am_headers,
                    am_paths,
                    am_query,
                )
            },
        },
    }
}

/// The plans of all members, in declaration order; the first failing
/// member fails the whole group.
pub open spec fn spec_feign_members(
    base_url: Seq<char>,
    base_meta: Seq<(Seq<char>, Seq<char>)>,
    members: Seq<MemberDecl>,
    am_params: Seq<(Seq<char>, Seq<char>)>,
    am_headers: Seq<(Seq<char>, Seq<char>)>,
    am_paths: Seq<(Seq<char>, Seq<char>)>,
    am_query: Seq<(Seq<char>, Seq<char>)>,
) -> Result<Seq<RequestPlanView>, BuildError>
    decreases members.len(),
{
    if members.len() == 0 {
        Result::Ok(Seq::empty())
    } else {
        match spec_member_plan(
            base_url,
            base_meta,
            members[0],
            am_params,
            am_headers,
            am_paths,
            am_query,
        ) {
            Result::Err(e) => Result::Err(e),
            Result::Ok(p) => match spec_feign_members(
                base_url,
                base_meta,
                members.drop_first(),
                am_params,
                am_headers,
                am_paths,
                am_query,
            ) {
                Result::Err(e) => Result::Err(e),
                Result::Ok(rest) => Result::Ok(seq![p] + rest),
            },
        }
    }
}

/// A whole group: the base metadata gives the base URL and base
/// configuration, and every member is composed on top of them.  Empty
/// group metadata is always refused.
pub open spec fn spec_feign_impl(
    attr: Seq<char>,
    members: Seq<MemberDecl>,
    am_params: Seq<(Seq<char>, Seq<char>)>,
    am_headers: Seq<(Seq<char>, Seq<char>)>,
    am_paths: Seq<(Seq<char>, Seq<char>)>,
    am_query: Seq<(Seq<char>, Seq<char>)>,
    env: Seq<(Seq<char>, Seq<char>)>,
) -> Result<Seq<RequestPlanView>, BuildError> {
    match crate::meta::spec_parse_url_stream(attr) {
        Result::Err(e) => Result::Err(e),
        Result::Ok(u) => spec_feign_members(
            crate::plan::spec_resolve_url(u, env),
            spec_parse_exprs(attr),
            members,
            am_params,
            am_headers,
            am_paths,
            am_query,
        ),
    }
}

/// Composes the plans of a whole annotated group: group metadata text,
/// members, ambient context and bound URL constants in, one plan per
/// member out.
pub fn feign_impl(
    attr: &str,
    members: &Vec<MemberDecl>,
    ambient: &AmbientMaps,
    env: &Vec<(String, String)>,
) -> (r: Result<Vec<RequestPlan>, BuildError>)
    ensures
        ({
            let s = spec_feign_impl(
                attr@,
                members@,
                ambient.params.deep_view(),
                ambient.headers.deep_view(),
                ambient.paths.deep_view(),
                ambient.query.deep_view(),
                env.deep_view(),
            );
            match r {
                Result::Ok(v) => s == Result::<Seq<RequestPlanView>, BuildError>::Ok(
                    v.deep_view(),
                ),
                Result::Err(e) => s == Result::<Seq<RequestPlanView>, BuildError>::Err(e),
            }
        }),
        spec_trim(attr@).len() == 0 ==> r == Result::<Vec<RequestPlan>, BuildError>::Err(
            BuildError::NoMetadataAssigned,
        ),
{
    let url_expr = match crate::meta::parse_url_stream(attr) {
        Ok(u) => u,
        Err(e) => {
            return Err(e);
        },
    };
    let base_url = crate::plan::resolve_url(&url_expr, env);
    let base_meta = crate::meta::parse_exprs(attr);
    let mut out: Vec<RequestPlan> = Vec::new();
    let mut i: usize = 0;
    let ghost membs = members@;
    proof {
        assert(membs.skip(0) =~= membs);
    }
    while i < members.len()
        invariant
            i <= members.len(),
            membs == members@,
            crate::meta::spec_parse_url_stream(attr@) == Result::<
                crate::meta::UrlExprView,
                BuildError,
            >::Ok(url_expr@),
            base_url@ == crate::plan::spec_resolve_url(url_expr@, env.deep_view()),
            base_meta.deep_view() == spec_parse_exprs(attr@),
            ({
                let full = spec_feign_members(
                    base_url@,
                    base_meta.deep_view(),
                    membs,
                    ambient.params.deep_view(),
                    ambient.headers.deep_view(),
                    ambient.paths.deep_view(),
                    ambient.query.deep_view(),
                );
                let rest = spec_feign_members(
                    base_url@,
                    base_meta.deep_view(),
                    membs.skip(i as int),
                    ambient.params.deep_view(),
                    ambient.headers.deep_view(),
                    ambient.paths.deep_view(),
                    ambient.query.deep_view(),
                );
                match rest {
                    Result::Ok(tail) => full == Result::<Seq<RequestPlanView>, BuildError>::Ok(
                        out.deep_view() + tail,
                    ),
                    Result::Err(e) => full == Result::<Seq<RequestPlanView>, BuildError>::Err(e),
                }
            }),
        decreases members.len() - i,
    {
        proof {
            assert(membs.skip(i as int)[0] == membs[i as int]);
            assert(membs.skip(i as int).drop_first() =~= membs.skip(i + 1));
            reveal_strlit("get");
            reveal_strlit("post");
            reveal_strlit("put");
            reveal_strlit("delete");
            assert("get"@[0] == 'g' && "put"@[0] == 'p');
            assert("get"@.len() == 3 && "post"@.len() == 4 && "put"@.len() == 3 && "delete"@.len()
                == 6);
            assert("get"@ != "post"@ && "get"@ != "put"@ && "get"@ != "delete"@);
            assert("post"@ != "put"@ && "post"@ != "delete"@ && "put"@ != "delete"@);
        }
        let m = &members[i];
        let method = match Method::from_str(m.verb.as_str()) {
            Ok(mm) => mm,
            Err(_) => {
                proof {
                    assert(spec_method_of(membs[i as int].verb@) is None);
                }
                return Err(BuildError::UnknownMethod);
            },
        };
        proof {
            assert(spec_method_of(membs[i as int].verb@) == Option::Some(method));
        }
        let path = match parse_fn_path(m.attr.as_str()) {
            Ok(p) => p,
            Err(e) => {
                return Err(e);
            },
        };
        let mut url = base_url.clone();
        match &path {
            Some(f) => {
                url.append(f.as_str());
            },
            None => {
                proof {
                    assert(url@ + Seq::<char>::empty() =~= url@);
                }
            },
        }
        let mut meta_map = crate::plan::clone_pairs(&base_meta);
        let over = crate::meta::parse_exprs(m.attr.as_str());
        merge_pairs(&mut meta_map, &over);
        let metadata = crate::plan::FnMetadata { url, method, meta_map };
        let plan = match crate::plan::fn_impl(&metadata, &m.decl, &m.values, ambient) {
            Ok(p) => p,
            Err(e) => {
                return Err(e);
            },
        };
        let ghost dpre = out.deep_view();
        let ghost planv = plan@;
        out.push(plan);
        proof {
            assert(out.deep_view() =~= dpre.push(planv));
            let rest = spec_feign_members(
                base_url@,
                base_meta.deep_view(),
                membs.skip(i + 1),
                ambient.params.deep_view(),
                ambient.headers.deep_view(),
                ambient.paths.deep_view(),
                ambient.query.deep_view(),
            );
            if rest is Ok {
                assert(out.deep_view() + rest->Ok_0 =~= dpre + (seq![planv] + rest->Ok_0));
            }
        }
        i += 1;
    }
    proof {
        assert(membs.skip(membs.len() as int) =~= Seq::<MemberDecl>::empty());
        assert(out.deep_view() + Seq::<RequestPlanView>::empty() =~= out.deep_view());
    }
    Ok(out)
}

} // verus!
