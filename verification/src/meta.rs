//! The attribute-expression parser: the comma-separated metadata text
//! of one annotated item is taken apart into a URL expression (a bare
//! literal, a bare reference, or a `url =` assignment, optionally
//! extended by a `path =` suffix) and an ordered `key = value`
//! configuration list.

use vstd::prelude::*;
use crate::error::BuildError;
use crate::maps::{spec_upsert, upsert};
use crate::strutil::{
    find_char, find_char_in, is_digit, spec_split_quoted, spec_trim, split_quoted, str_eq,
    trim_str,
};

verus! {

/// One URL source operand: a string literal with known text, or a
/// reference to a constant, variable or field that is resolved when the
/// call is made.
pub enum UrlPiece {
    Lit(String),
    Ref(String),
}

/// The view of a `UrlPiece`.
pub enum UrlPieceView {
    Lit(Seq<char>),
    Ref(Seq<char>),
}

impl View for UrlPiece {
    type V = UrlPieceView;

    open spec fn view(&self) -> UrlPieceView {
        match self {
            UrlPiece::Lit(s) => UrlPieceView::Lit(s@),
            UrlPiece::Ref(s) => UrlPieceView::Ref(s@),
        }
    }
}

/// A composable URL expression: the source operand and an optional
/// `path` suffix appended to it at call time.
pub struct UrlExpr {
    pub source: UrlPiece,
    pub path: Option<UrlPiece>,
}

/// The view of a `UrlExpr`.
pub struct UrlExprView {
    pub source: UrlPieceView,
    pub path: Option<UrlPieceView>,
}

impl View for UrlExpr {
    type V = UrlExprView;

    open spec fn view(&self) -> UrlExprView {
        UrlExprView {
            source: self.source@,
            path: match &self.path {
                Option::Some(p) => Option::Some(p@),
                Option::None => Option::None,
            },
        }
    }
}

/// An ASCII letter.
pub open spec fn is_alpha(c: char) -> bool {
    ('a' <= c && c <= 'z') || ('A' <= c && c <= 'Z')
}

/// A character of a plain identifier.
pub open spec fn is_ident_char(c: char) -> bool {
    is_alpha(c) || is_digit(c) || c == '_'
}

/// A character of a reference expression: an identifier character, a
/// path separator or a field access dot.
pub open spec fn is_ref_char(c: char) -> bool {
    is_ident_char(c) || c == ':' || c == '.'
}

/// A plain identifier: nonempty, identifier characters only, not
/// starting with a digit.
pub open spec fn spec_is_ident(s: Seq<char>) -> bool {
    s.len() > 0 && !is_digit(s[0]) && forall|i: int| 0 <= i < s.len() ==> is_ident_char(
        #[trigger] s[i],
    )
}

/// A reference expression: nonempty, starts with a letter or `_`, and
/// holds reference characters only.
pub open spec fn spec_is_reference(s: Seq<char>) -> bool {
    s.len() > 0 && (is_alpha(s[0]) || s[0] == '_') && forall|i: int|
        0 <= i < s.len() ==> is_ref_char(#[trigger] s[i])
}

/// A string literal: quotes around text that holds no further quote.
pub open spec fn spec_is_quoted(s: Seq<char>) -> bool {
    s.len() >= 2 && s[0] == '"' && s[s.len() - 1] == '"' && forall|i: int|
        0 < i < s.len() - 1 ==> #[trigger] s[i] != '"'
}

/// The text inside the quotes.
pub open spec fn spec_unquote(s: Seq<char>) -> Seq<char> {
    s.subrange(1, s.len() - 1)
}

/// Splits a trimmed segment at its first `=`, trimming both sides.
pub open spec fn seg_assign(t: Seq<char>) -> Option<(Seq<char>, Seq<char>)> {
    let i = find_char(t, '=');
    if i == -1 {
        Option::None
    } else {
        Option::Some((spec_trim(t.take(i)), spec_trim(t.skip(i + 1))))
    }
}

/// A literal value keeps the text inside its quotes; any other value
/// keeps its raw text.
pub open spec fn spec_normalize_value(v: Seq<char>) -> Seq<char> {
    if spec_is_quoted(v) {
        spec_unquote(v)
    } else {
        v
    }
}

/// One `key = value` segment: the trimmed identifier key and the
/// normalized value.  A segment of any other shape gives nothing.
pub open spec fn spec_parse_meta(seg: Seq<char>) -> Option<(Seq<char>, Seq<char>)> {
    let t = spec_trim(seg);
    match seg_assign(t) {
        Option::None => Option::None,
        Option::Some((k, rhs)) => if spec_is_ident(k) {
            Option::Some((k, spec_normalize_value(rhs)))
        } else {
            Option::None
        },
    }
}

/// Folds the `key = value` segments of a list into a configuration
/// list; a repeated key keeps its position and takes the later value.
pub open spec fn spec_collect_exprs(segs: Seq<Seq<char>>) -> Seq<(Seq<char>, Seq<char>)>
    decreases segs.len(),
{
    if segs.len() == 0 {
        Seq::empty()
    } else {
        let rest = spec_collect_exprs(segs.drop_last());
        match spec_parse_meta(segs.last()) {
            Option::Some((k, v)) => spec_upsert(rest, k, v),
            Option::None => rest,
        }
    }
}

/// The configuration list held in a metadata text: every `key = value`
/// segment, in order, later values of a key overriding earlier ones.
pub open spec fn spec_parse_exprs(attr: Seq<char>) -> Seq<(Seq<char>, Seq<char>)> {
    spec_collect_exprs(spec_split_quoted(attr, ',', false))
}

/// The right-hand side of a `url =` or `path =` assignment: a quoted
/// literal or any nonempty reference text.
pub open spec fn spec_classify_rhs(v: Seq<char>) -> Result<UrlPieceView, BuildError> {
    if spec_is_quoted(v) {
        Result::Ok(UrlPieceView::Lit(spec_unquote(v)))
    } else if v.len() > 0 {
        Result::Ok(UrlPieceView::Ref(v))
    } else {
        Result::Err(BuildError::InvalidUrlExpression)
    }
}

/// A bare URL source: a quoted literal or a reference expression.
pub open spec fn spec_classify_bare(v: Seq<char>) -> Result<UrlPieceView, BuildError> {
    if spec_is_quoted(v) {
        Result::Ok(UrlPieceView::Lit(spec_unquote(v)))
    } else if spec_is_reference(v) {
        Result::Ok(UrlPieceView::Ref(v))
    } else {
        Result::Err(BuildError::InvalidUrlExpression)
    }
}

/// The URL source read from the first metadata segment: an assignment
/// must assign to `url`, anything else must be a literal or reference.
pub open spec fn spec_parse_url(seg: Seq<char>) -> Result<UrlPieceView, BuildError> {
    let t = spec_trim(seg);
    match seg_assign(t) {
        Option::Some((k, rhs)) => if spec_is_ident(k) {
            if k == "url"@ {
                spec_classify_rhs(rhs)
            } else {
                Result::Err(BuildError::UrlNotSpecified)
            }
        } else {
            spec_classify_bare(t)
        },
        Option::None => spec_classify_bare(t),
    }
}

/// The first `path =` assignment among the remaining segments, if any.
pub open spec fn spec_find_path(segs: Seq<Seq<char>>) -> Result<Option<UrlPieceView>, BuildError>
    decreases segs.len(),
{
    if segs.len() == 0 {
        Result::Ok(Option::None)
    } else {
        let t = spec_trim(segs[0]);
        match seg_assign(t) {
            Option::Some((k, rhs)) => if k == "path"@ {
                match spec_classify_rhs(rhs) {
                    Result::Ok(p) => Result::Ok(Option::Some(p)),
                    Result::Err(e) => Result::Err(e),
                }
            } else {
                spec_find_path(segs.drop_first())
            },
            Option::None => spec_find_path(segs.drop_first()),
        }
    }
}

/// The whole URL expression of a metadata text: empty metadata is
/// refused, the first segment gives the source, the first `path =`
/// assignment gives the suffix.
pub open spec fn spec_parse_url_stream(attr: Seq<char>) -> Result<UrlExprView, BuildError> {
    if spec_trim(attr).len() == 0 {
        Result::Err(BuildError::NoMetadataAssigned)
    } else {
        let segs = spec_split_quoted(attr, ',', false);
        match spec_parse_url(segs[0]) {
            Result::Err(e) => Result::Err(e),
            Result::Ok(src) => match spec_find_path(segs.skip(1)) {
                Result::Err(e) => Result::Err(e),
                Result::Ok(p) => Result::Ok(UrlExprView { source: src, path: p }),
            },
        }
    }
}

fn is_ident_x(s: &str) -> (r: bool)
    ensures
        r == spec_is_ident(s@),
{
    let len = s.unicode_len();
    if len == 0 {
        return false;
    }
    let c0 = s.get_char(0);
    if '0' <= c0 && c0 <= '9' {
        return false;
    }
    let mut i: usize = 0;
    while i < len
        invariant
            i <= len,
            len == s@.len(),
            forall|j: int| 0 <= j < i ==> is_ident_char(#[trigger] s@[j]),
        decreases len - i,
    {
        let c = s.get_char(i);
        if !(('a' <= c && c <= 'z') || ('A' <= c && c <= 'Z') || ('0' <= c && c <= '9') || c
            == '_') {
            return false;
        }
        i += 1;
    }
    true
}

fn is_reference_x(s: &str) -> (r: bool)
    ensures
        r == spec_is_reference(s@),
{
    let len = s.unicode_len();
    if len == 0 {
        return false;
    }
    let c0 = s.get_char(0);
    if !(('a' <= c0 && c0 <= 'z') || ('A' <= c0 && c0 <= 'Z') || c0 == '_') {
        return false;
    }
    let mut i: usize = 0;
    while i < len
        invariant
            i <= len,
            len == s@.len(),
            forall|j: int| 0 <= j < i ==> is_ref_char(#[trigger] s@[j]),
        decreases len - i,
    {
        let c = s.get_char(i);
        if !(('a' <= c && c <= 'z') || ('A' <= c && c <= 'Z') || ('0' <= c && c <= '9') || c == '_'
            || c == ':' || c == '.') {
            return false;
        }
        i += 1;
    }
    true
}

pub(crate) fn is_quoted_x(s: &str) -> (r: bool)
    ensures
        r == spec_is_quoted(s@),
{
    let len = s.unicode_len();
    if len < 2 {
        return false;
    }
    if s.get_char(0) != '"' || s.get_char(len - 1) != '"' {
        return false;
    }
    let mut i: usize = 1;
    while i < len - 1
        invariant
            1 <= i <= len - 1,
            len == s@.len(),
            len >= 2,
            forall|j: int| 0 < j < i ==> #[trigger] s@[j] != '"',
        decreases len - i,
    {
        if s.get_char(i) == '"' {
            return false;
        }
        i += 1;
    }
    true
}

pub(crate) fn unquote_x(s: &str) -> (r: String)
    requires
        s@.len() >= 2,
    ensures
        r@ == spec_unquote(s@),
{
    let len = s.unicode_len();
    let inner = s.substring_char(1, len - 1);
    inner.to_owned()
}

/// Splits a trimmed segment at its first `=`; both sides are trimmed.
pub(crate) fn seg_assign_x(t: &str) -> (r: Option<(String, String)>)
    ensures
        match r {
            Option::Some(p) => seg_assign(t@) == Option::Some((p.0@, p.1@)),
            Option::None => seg_assign(t@) is None,
        },
{
    let len = t.unicode_len();
    match find_char_in(t, '=') {
        Option::None => None,
        Option::Some(i) => {
            proof {
                crate::strutil::lemma_find_char_bounds(t@, '=');
            }
            let left = trim_str(t.substring_char(0, i));
            let right = trim_str(t.substring_char(i + 1, len));
            proof {
                assert(t@.subrange(0, i as int) =~= t@.take(i as int));
                assert(t@.subrange(i + 1, len as int) =~= t@.skip(i + 1));
            }
            Some((left.to_owned(), right.to_owned()))
        },
    }
}

/// Reads one `key = value` segment, or nothing for any other shape.
pub fn parse_meta(seg: &str) -> (r: Option<(String, String)>)
    ensures
        match r {
            Option::Some(p) => spec_parse_meta(seg@) == Option::Some((p.0@, p.1@)),
            Option::None => spec_parse_meta(seg@) is None,
        },
{
    let t = trim_str(seg);
    match seg_assign_x(t) {
        Option::None => None,
        Option::Some((k, rhs)) => {
            if is_ident_x(k.as_str()) {
                if is_quoted_x(rhs.as_str()) {
                    Some((k, unquote_x(rhs.as_str())))
                } else {
                    Some((k, rhs))
                }
            } else {
                None
            }
        },
    }
}

/// Parses assignment expressions like `n1 = v1, n2 = v2` into the
/// ordered configuration list; segments of any other shape are inert.
pub fn parse_exprs(attr: &str) -> (r: Vec<(String, String)>)
    ensures
        r.deep_view() == spec_parse_exprs(attr@),
{
    let segs = split_quoted(attr, ',');
    let ghost segsv = spec_split_quoted(attr@, ',', false);
    let mut out: Vec<(String, String)> = Vec::new();
    let mut i: usize = 0;
    proof {
        assert(segsv.take(0) =~= Seq::<Seq<char>>::empty());
    }
    while i < segs.len()
        invariant
            i <= segs.len(),
            segs.deep_view() == segsv,
            segs.deep_view().len() == segs.len(),
            out.deep_view() == spec_collect_exprs(segsv.take(i as int)),
        decreases segs.len() - i,
    {
        proof {
            assert(segsv.take(i + 1).drop_last() =~= segsv.take(i as int));
            assert(segsv.take(i + 1).last() == segsv[i as int]);
            assert(segs[i as int]@ == segsv[i as int]);
        }
        match parse_meta(segs[i].as_str()) {
            Option::Some((k, v)) => {
                upsert(&mut out, k, v);
            },
            Option::None => {},
        }
        i += 1;
    }
    proof {
        assert(segsv.take(segs.len() as int) =~= segsv);
    }
    out
}

/// Classifies the right-hand side of a `url =` or `path =` assignment.
fn classify_rhs_x(v: &str) -> (r: Result<UrlPiece, BuildError>)
    ensures
        match r {
            Result::Ok(p) => spec_classify_rhs(v@) == Result::<UrlPieceView, BuildError>::Ok(p@),
            Result::Err(e) => spec_classify_rhs(v@) == Result::<UrlPieceView, BuildError>::Err(e),
        },
{
    if is_quoted_x(v) {
        Ok(UrlPiece::Lit(unquote_x(v)))
    } else if v.unicode_len() > 0 {
        Ok(UrlPiece::Ref(v.to_owned()))
    } else {
        Err(BuildError::InvalidUrlExpression)
    }
}

/// Parses and validates one URL source segment.
pub fn parse_url(seg: &str) -> (r: Result<UrlPiece, BuildError>)
    ensures
        match r {
            Result::Ok(p) => spec_parse_url(seg@) == Result::<UrlPieceView, BuildError>::Ok(p@),
            Result::Err(e) => spec_parse_url(seg@) == Result::<UrlPieceView, BuildError>::Err(e),
        },
{
    proof {
        reveal_strlit("url");
    }
    let t = trim_str(seg);
    match seg_assign_x(t) {
        Option::Some((k, rhs)) => {
            if is_ident_x(k.as_str()) {
                if str_eq(k.as_str(), "url") {
                    classify_rhs_x(rhs.as_str())
                } else {
                    Err(BuildError::UrlNotSpecified)
                }
            } else {
                classify_bare_x(t)
            }
        },
        Option::None => classify_bare_x(t),
    }
}

/// Classifies a bare URL source segment.
fn classify_bare_x(v: &str) -> (r: Result<UrlPiece, BuildError>)
    ensures
        match r {
            Result::Ok(p) => spec_classify_bare(v@) == Result::<UrlPieceView, BuildError>::Ok(p@),
            Result::Err(e) => spec_classify_bare(v@) == Result::<UrlPieceView, BuildError>::Err(e),
        },
{
    if is_quoted_x(v) {
        Ok(UrlPiece::Lit(unquote_x(v)))
    } else if is_reference_x(v) {
        Ok(UrlPiece::Ref(v.to_owned()))
    } else {
        Err(BuildError::InvalidUrlExpression)
    }
}

/// Parses the whole metadata text into a URL expression: the first
/// segment is the source, the first `path =` assignment the suffix.
/// Empty metadata is always refused.
pub fn parse_url_stream(attr: &str) -> (r: Result<UrlExpr, BuildError>)
    ensures
        match r {
            Result::Ok(u) => spec_parse_url_stream(attr@) == Result::<UrlExprView, BuildError>::Ok(
                u@,
            ),
            Result::Err(e) => spec_parse_url_stream(attr@) == Result::<
                UrlExprView,
                BuildError,
            >::Err(e),
        },
{
    proof {
        reveal_strlit("path");
    }
    let trimmed = trim_str(attr);
    if trimmed.unicode_len() == 0 {
        return Err(BuildError::NoMetadataAssigned);
    }
    let segs = split_quoted(attr, ',');
    let ghost segsv = spec_split_quoted(attr@, ',', false);
    proof {
        assert(segs[0]@ == segsv[0]);
    }
    let source = match parse_url(segs[0].as_str()) {
        Ok(p) => p,
        Err(e) => {
            return Err(e);
        },
    };
    let mut i: usize = 1;
    proof {
        assert(segsv.skip(1) =~= segsv.skip(1));
    }
    while i < segs.len()
        invariant
            1 <= i <= segs.len(),
            segs.len() >= 1,
            segs.deep_view() == segsv,
            segs.deep_view().len() == segs.len(),
            segsv == spec_split_quoted(attr@, ',', false),
            spec_trim(attr@).len() != 0,
            spec_parse_url(segsv[0]) == Result::<UrlPieceView, BuildError>::Ok(source@),
            spec_find_path(segsv.skip(1)) == spec_find_path(segsv.skip(i as int)),
        decreases segs.len() - i,
    {
        proof {
            assert(segsv.skip(i as int)[0] == segsv[i as int]);
            assert(segsv.skip(i as int).drop_first() =~= segsv.skip(i + 1));
            assert(segs[i as int]@ == segsv[i as int]);
        }
        let t = trim_str(segs[i].as_str());
        match seg_assign_x(t) {
            Option::Some((k, rhs)) => {
                if str_eq(k.as_str(), "path") {
                    match classify_rhs_x(rhs.as_str()) {
                        Ok(p) => {
                            return Ok(UrlExpr { source, path: Some(p) });
                        },
                        Err(e) => {
                            return Err(e);
                        },
                    }
                }
            },
            Option::None => {},
        }
        i += 1;
    }
    proof {
        assert(segsv.skip(segs.len() as int) =~= Seq::<Seq<char>>::empty());
    }
    Ok(UrlExpr { source, path: None })
}

} // verus!
