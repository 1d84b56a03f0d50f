//! Verified character and string utilities: comparison, case folding,
//! trimming, splitting, decimal parsing and single-character appends.
//! Everything is specified against the `Seq<char>` view of `str`/`String`.

use vstd::prelude::*;

verus! {

/// Relies on `String::push`: appends exactly the given character.
#[verifier::external_body]
pub fn push_char(s: &mut String, c: char)
    ensures
        final(s)@ == old(s)@.push(c),
{
    s.push(c);
}

/// True when the two string slices hold the same characters.
pub fn str_eq(a: &str, b: &str) -> (r: bool)
    ensures
        r == (a@ == b@),
{
    let alen = a.unicode_len();
    let blen = b.unicode_len();
    if alen != blen {
        return false;
    }
    let mut i: usize = 0;
    while i < alen
        invariant
            i <= alen,
            alen == a@.len(),
            blen == b@.len(),
            alen == blen,
            forall|j: int| 0 <= j < i ==> a@[j] == b@[j],
        decreases alen - i,
    {
        if a.get_char(i) != b.get_char(i) {
            return false;
        }
        i += 1;
    }
    proof {
        assert(a@ =~= b@);
    }
    true
}

/// ASCII lower-casing of one character; anything outside `A`..`Z` is kept.
pub open spec fn lower_char(c: char) -> char {
    match c {
        'A' => 'a',
        'B' => 'b',
        'C' => 'c',
        'D' => 'd',
        'E' => 'e',
        'F' => 'f',
        'G' => 'g',
        'H' => 'h',
        'I' => 'i',
        'J' => 'j',
        'K' => 'k',
        'L' => 'l',
        'M' => 'm',
        'N' => 'n',
        'O' => 'o',
        'P' => 'p',
        'Q' => 'q',
        'R' => 'r',
        'S' => 's',
        'T' => 't',
        'U' => 'u',
        'V' => 'v',
        'W' => 'w',
        'X' => 'x',
        'Y' => 'y',
        'Z' => 'z',
        _ => c,
    }
}

pub fn lower_char_x(c: char) -> (r: char)
    ensures
        r == lower_char(c),
{
    match c {
        'A' => 'a',
        'B' => 'b',
        'C' => 'c',
        'D' => 'd',
        'E' => 'e',
        'F' => 'f',
        'G' => 'g',
        'H' => 'h',
        'I' => 'i',
        'J' => 'j',
        'K' => 'k',
        'L' => 'l',
        'M' => 'm',
        'N' => 'n',
        'O' => 'o',
        'P' => 'p',
        'Q' => 'q',
        'R' => 'r',
        'S' => 's',
        'T' => 't',
        'U' => 'u',
        'V' => 'v',
        'W' => 'w',
        'X' => 'x',
        'Y' => 'y',
        'Z' => 'z',
        _ => c,
    }
}

/// ASCII lower-casing of a whole character sequence.
pub open spec fn lower_seq(s: Seq<char>) -> Seq<char> {
    Seq::new(s.len(), |i: int| lower_char(s[i]))
}

/// ASCII lower-casing of a string.
pub fn lower_string(s: &str) -> (r: String)
    ensures
        r@ == lower_seq(s@),
{
    let len = s.unicode_len();
    let mut out = String::new();
    let mut i: usize = 0;
    while i < len
        invariant
            i <= len,
            len == s@.len(),
            out@ =~= lower_seq(s@).subrange(0, i as int),
        decreases len - i,
    {
        push_char(&mut out, lower_char_x(s.get_char(i)));
        proof {
            assert(out@ =~= lower_seq(s@).subrange(0, i + 1 as int));
        }
        i += 1;
    }
    proof {
        assert(out@ =~= lower_seq(s@));
    }
    out
}

/// The characters treated as trimmable whitespace.
pub open spec fn is_ws(c: char) -> bool {
    c == ' ' || c == '\t' || c == '\n' || c == '\r'
}

pub fn is_ws_x(c: char) -> (r: bool)
    ensures
        r == is_ws(c),
{
    c == ' ' || c == '\t' || c == '\n' || c == '\r'
}

/// The sequence with leading and trailing whitespace removed.
pub open spec fn spec_trim(s: Seq<char>) -> Seq<char>
    decreases s.len(),
{
    if s.len() == 0 {
        s
    } else if is_ws(s[0]) {
        spec_trim(s.drop_first())
    } else if is_ws(s[s.len() - 1]) {
        spec_trim(s.drop_last())
    } else {
        s
    }
}

/// Removes leading and trailing whitespace.
pub fn trim_str<'a>(s: &'a str) -> (r: &'a str)
    ensures
        r@ == spec_trim(s@),
    decreases s@.len(),
{
    let len = s.unicode_len();
    if len == 0 {
        s
    } else if is_ws_x(s.get_char(0)) {
        let t = s.substring_char(1, len);
        proof {
            assert(t@ =~= s@.drop_first());
        }
        trim_str(t)
    } else if is_ws_x(s.get_char(len - 1)) {
        let t = s.substring_char(0, len - 1);
        proof {
            assert(t@ =~= s@.drop_last());
        }
        trim_str(t)
    } else {
        s
    }
}

/// Splitting on a separator character; the result always holds at least
/// one piece, and joining the pieces with the separator gives back the
/// input.
pub open spec fn spec_split(s: Seq<char>, sep: char) -> Seq<Seq<char>>
    decreases s.len(),
{
    if s.len() == 0 {
        seq![Seq::<char>::empty()]
    } else if s[0] == sep {
        seq![Seq::<char>::empty()] + spec_split(s.drop_first(), sep)
    } else {
        let r = spec_split(s.drop_first(), sep);
        seq![seq![s[0]] + r[0]] + r.skip(1)
    }
}

pub fn split_str(s: &str, sep: char) -> (r: Vec<String>)
    ensures
        r.deep_view() == spec_split(s@, sep),
        r.len() >= 1,
    decreases s@.len(),
{
    let len = s.unicode_len();
    if len == 0 {
        let mut v: Vec<String> = Vec::new();
        v.push(String::new());
        proof {
            assert(v.deep_view() =~= spec_split(s@, sep));
        }
        v
    } else if s.get_char(0) == sep {
        let tail = s.substring_char(1, len);
        proof {
            assert(tail@ =~= s@.drop_first());
        }
        let mut rest = split_str(tail, sep);
        rest.insert(0, String::new());
        proof {
            assert(rest.deep_view() =~= spec_split(s@, sep));
        }
        rest
    } else {
        let tail = s.substring_char(1, len);
        proof {
            assert(tail@ =~= s@.drop_first());
        }
        let mut rest = split_str(tail, sep);
        let head = s.substring_char(0, 1);
        let first = rest.remove(0);
        let mut piece = head.to_owned();
        piece.append(first.as_str());
        rest.insert(0, piece);
        proof {
            let prev = spec_split(s@.drop_first(), sep);
            assert(head@ =~= seq![s@[0]]);
            assert(rest.deep_view() =~= seq![seq![s@[0]] + prev[0]] + prev.skip(1));
        }
        rest
    }
}

/// Splitting on a separator character, where separators inside a
/// double-quoted stretch do not count.  Quote characters toggle the
/// quoted state and are kept in the pieces.
pub open spec fn spec_split_quoted(s: Seq<char>, sep: char, inq: bool) -> Seq<Seq<char>>
    decreases s.len(),
{
    if s.len() == 0 {
        seq![Seq::<char>::empty()]
    } else if !inq && s[0] == sep {
        seq![Seq::<char>::empty()] + spec_split_quoted(s.drop_first(), sep, false)
    } else {
        let nq = if s[0] == '"' {
            !inq
        } else {
            inq
        };
        let r = spec_split_quoted(s.drop_first(), sep, nq);
        seq![seq![s[0]] + r[0]] + r.skip(1)
    }
}

fn split_quoted_from(s: &str, sep: char, inq: bool) -> (r: Vec<String>)
    ensures
        r.deep_view() == spec_split_quoted(s@, sep, inq),
        r.len() >= 1,
    decreases s@.len(),
{
    let len = s.unicode_len();
    if len == 0 {
        let mut v: Vec<String> = Vec::new();
        v.push(String::new());
        proof {
            assert(v.deep_view() =~= spec_split_quoted(s@, sep, inq));
        }
        v
    } else {
        let c = s.get_char(0);
        let tail = s.substring_char(1, len);
        proof {
            assert(tail@ =~= s@.drop_first());
        }
        if !inq && c == sep {
            let mut rest = split_quoted_from(tail, sep, false);
            rest.insert(0, String::new());
            proof {
                assert(rest.deep_view() =~= spec_split_quoted(s@, sep, inq));
            }
            rest
        } else {
            let nq = if c == '"' {
                !inq
            } else {
                inq
            };
            let mut rest = split_quoted_from(tail, sep, nq);
            let head = s.substring_char(0, 1);
            let first = rest.remove(0);
            let mut piece = head.to_owned();
            piece.append(first.as_str());
            rest.insert(0, piece);
            proof {
                let prev = spec_split_quoted(s@.drop_first(), sep, nq);
                assert(head@ =~= seq![s@[0]]);
                assert(rest.deep_view() =~= seq![seq![s@[0]] + prev[0]] + prev.skip(1));
            }
            rest
        }
    }
}

/// Splitting on a separator, ignoring separators inside double quotes.
pub fn split_quoted(s: &str, sep: char) -> (r: Vec<String>)
    ensures
        r.deep_view() == spec_split_quoted(s@, sep, false),
        r.len() >= 1,
{
    split_quoted_from(s, sep, false)
}

/// The index of the first occurrence of `c`, or `-1` when there is none.
pub open spec fn find_char(s: Seq<char>, c: char) -> int
    decreases s.len(),
{
    if s.len() == 0 {
        -1
    } else if s[0] == c {
        0
    } else {
        let r = find_char(s.drop_first(), c);
        if r == -1 {
            -1
        } else {
            r + 1
        }
    }
}

pub proof fn lemma_find_char_bounds(s: Seq<char>, c: char)
    ensures
        find_char(s, c) == -1 ==> forall|i: int| 0 <= i < s.len() ==> s[i] != c,
        find_char(s, c) != -1 ==> {
            &&& 0 <= find_char(s, c) < s.len()
            &&& s[find_char(s, c)] == c
            &&& forall|i: int| 0 <= i < find_char(s, c) ==> s[i] != c
        },
    decreases s.len(),
{
    if s.len() != 0 && s[0] != c {
        lemma_find_char_bounds(s.drop_first(), c);
        let r = find_char(s.drop_first(), c);
        if r == -1 {
            assert forall|i: int| 0 <= i < s.len() implies s[i] != c by {
                if i >= 1 {
                    assert(s.drop_first()[i - 1] == s[i]);
                }
            }
        } else {
            assert(s[r + 1] == s.drop_first()[r]);
            assert forall|i: int| 0 <= i < r + 1 implies s[i] != c by {
                if i >= 1 {
                    assert(s.drop_first()[i - 1] == s[i]);
                }
            }
        }
    }
}

pub fn find_char_in(s: &str, c: char) -> (r: Option<usize>)
    ensures
        match r {
            Some(i) => find_char(s@, c) == i as int,
            None => find_char(s@, c) == -1,
        },
    decreases s@.len(),
{
    let len = s.unicode_len();
    if len == 0 {
        None
    } else if s.get_char(0) == c {
        Some(0)
    } else {
        let tail = s.substring_char(1, len);
        proof {
            assert(tail@ =~= s@.drop_first());
            lemma_find_char_bounds(tail@, c);
        }
        match find_char_in(tail, c) {
            None => None,
            Some(i) => Some(i + 1),
        }
    }
}

/// Whether `pat` occurs in `s` starting at position `at`.
pub fn match_at(s: &str, at: usize, pat: &str) -> (r: bool)
    requires
        at + pat@.len() <= s@.len(),
        s@.len() <= usize::MAX,
    ensures
        r == (s@.subrange(at as int, at as int + pat@.len() as int) == pat@),
{
    let plen = pat.unicode_len();
    let mut j: usize = 0;
    while j < plen
        invariant
            j <= plen,
            plen == pat@.len(),
            at + pat@.len() <= s@.len(),
            s@.len() <= usize::MAX,
            forall|k: int| 0 <= k < j ==> s@[at + k] == pat@[k],
        decreases plen - j,
    {
        if s.get_char(at + j) != pat.get_char(j) {
            proof {
                assert(s@.subrange(at as int, at as int + pat@.len() as int)[j as int]
                    != pat@[j as int]);
            }
            return false;
        }
        j += 1;
    }
    proof {
        assert(s@.subrange(at as int, at as int + pat@.len() as int) =~= pat@);
    }
    true
}

/// Left-to-right replacement of every non-overlapping occurrence of
/// `pat` by `sub`; an empty pattern leaves the text unchanged.
pub open spec fn replace_all(t: Seq<char>, pat: Seq<char>, sub: Seq<char>) -> Seq<char>
    decreases t.len(),
{
    if pat.len() == 0 || t.len() < pat.len() {
        t
    } else if t.subrange(0, pat.len() as int) == pat {
        sub + replace_all(t.skip(pat.len() as int), pat, sub)
    } else {
        seq![t[0]] + replace_all(t.skip(1), pat, sub)
    }
}

/// Replaces every non-overlapping occurrence of `pat` in `t` by `sub`,
/// scanning left to right.
pub fn replace_str(t: &str, pat: &str, sub: &str) -> (r: String)
    ensures
        r@ == replace_all(t@, pat@, sub@),
    decreases t@.len(),
{
    let tlen = t.unicode_len();
    let plen = pat.unicode_len();
    if plen == 0 || tlen < plen {
        return t.to_owned();
    }
    if match_at(t, 0, pat) {
        let tail = t.substring_char(plen, tlen);
        proof {
            assert(tail@ =~= t@.skip(plen as int));
        }
        let rest = replace_str(tail, pat, sub);
        let mut out = sub.to_owned();
        out.append(rest.as_str());
        out
    } else {
        let tail = t.substring_char(1, tlen);
        proof {
            assert(tail@ =~= t@.skip(1));
        }
        let rest = replace_str(tail, pat, sub);
        let head = t.substring_char(0, 1);
        proof {
            assert(head@ =~= seq![t@[0]]);
        }
        let mut out = head.to_owned();
        out.append(rest.as_str());
        out
    }
}

/// Whether `pat` occurs anywhere in `t`.
pub open spec fn occurs(t: Seq<char>, pat: Seq<char>) -> bool {
    exists|i: int|
        0 <= i <= t.len() - pat.len() && #[trigger] t.subrange(i, i + pat.len() as int) == pat
}

/// Replacement is the identity on a text in which the pattern does not
/// occur.
pub proof fn lemma_replace_absent(t: Seq<char>, pat: Seq<char>, sub: Seq<char>)
    requires
        !occurs(t, pat),
    ensures
        replace_all(t, pat, sub) == t,
    decreases t.len(),
{
    if pat.len() == 0 || t.len() < pat.len() {
    } else {
        assert(t.subrange(0, pat.len() as int) != pat) by {
            if t.subrange(0, pat.len() as int) == pat {
                assert(t.subrange(0, 0 + pat.len() as int) == pat);
            }
        }
        assert forall|i: int|
            0 <= i <= t.skip(1).len() - pat.len() implies #[trigger] t.skip(1).subrange(
            i,
            i + pat.len() as int,
        ) != pat by {
            assert(t.skip(1).subrange(i, i + pat.len() as int) =~= t.subrange(
                i + 1,
                i + 1 + pat.len() as int,
            ));
        }
        lemma_replace_absent(t.skip(1), pat, sub);
        assert(replace_all(t, pat, sub) =~= t);
    }
}

/// A decimal digit.
pub open spec fn is_digit(c: char) -> bool {
    '0' <= c && c <= '9'
}

pub open spec fn all_digits(s: Seq<char>) -> bool {
    forall|i: int| 0 <= i < s.len() ==> is_digit(#[trigger] s[i])
}

/// The value of a digit sequence read in base ten.
pub open spec fn dec_val(s: Seq<char>) -> int
    decreases s.len(),
{
    if s.len() == 0 {
        0
    } else {
        dec_val(s.drop_last()) * 10 + (s.last() as int - '0' as int)
    }
}

pub proof fn lemma_dec_val_nonneg(s: Seq<char>)
    requires
        all_digits(s),
    ensures
        dec_val(s) >= 0,
    decreases s.len(),
{
    if s.len() != 0 {
        assert(all_digits(s.drop_last()));
        lemma_dec_val_nonneg(s.drop_last());
    }
}

pub proof fn lemma_dec_val_step(s: Seq<char>, j: int)
    requires
        0 <= j < s.len(),
    ensures
        dec_val(s.take(j + 1)) == dec_val(s.take(j)) * 10 + (s[j] as int - '0' as int),
{
    assert(s.take(j + 1).drop_last() =~= s.take(j));
    assert(s.take(j + 1).last() == s[j]);
}

pub proof fn lemma_dec_val_take_le(s: Seq<char>, i: int)
    requires
        all_digits(s),
        0 <= i <= s.len(),
    ensures
        dec_val(s.take(i)) <= dec_val(s),
    decreases s.len() - i,
{
    if i == s.len() {
        assert(s.take(i) =~= s);
    } else {
        assert(s.take(i + 1).drop_last() =~= s.take(i));
        assert(all_digits(s.take(i)));
        lemma_dec_val_nonneg(s.take(i));
        assert(dec_val(s.take(i + 1)) == dec_val(s.take(i)) * 10 + (s[i] as int - '0' as int));
        lemma_dec_val_take_le(s, i + 1);
    }
}

/// The digit part of a decimal text: an optional leading `+` is dropped.
pub open spec fn dec_digits(s: Seq<char>) -> Seq<char> {
    if s.len() > 0 && s[0] == '+' {
        s.drop_first()
    } else {
        s
    }
}

/// Whether a text is a well-formed decimal number: at least one digit
/// after the optional leading `+`, digits only.
pub open spec fn is_dec_text(s: Seq<char>) -> bool {
    dec_digits(s).len() > 0 && all_digits(dec_digits(s))
}

/// Parses an unsigned decimal number, with an optional leading `+`.
/// Returns `None` exactly on malformed text and on values over
/// `u64::MAX`.
pub fn parse_u64(s: &str) -> (r: Option<u64>)
    ensures
        match r {
            Some(v) => is_dec_text(s@) && dec_val(dec_digits(s@)) == v as int,
            None => !is_dec_text(s@) || dec_val(dec_digits(s@)) > u64::MAX,
        },
{
    let len = s.unicode_len();
    let start: usize = if len > 0 && s.get_char(0) == '+' {
        1
    } else {
        0
    };
    if start >= len {
        return None;
    }
    let ghost d = dec_digits(s@);
    proof {
        assert(d =~= s@.subrange(start as int, len as int));
    }
    let mut acc: u64 = 0;
    let mut i: usize = start;
    while i < len
        invariant
            start <= i <= len,
            len == s@.len(),
            start < len,
            d == dec_digits(s@),
            d =~= s@.subrange(start as int, len as int),
            all_digits(d.take(i - start)),
            acc as int == dec_val(d.take(i - start)),
        decreases len - i,
    {
        let c = s.get_char(i);
        if !('0' <= c && c <= '9') {
            proof {
                assert(d[i - start] == s@[i as int]);
                assert(!is_digit(d[i - start]));
            }
            return None;
        }
        let digit: u64 = (c as u32 - '0' as u32) as u64;
        proof {
            assert(d[i - start] == s@[i as int]);
            assert forall|k: int| 0 <= k < i + 1 - start implies is_digit(
                #[trigger] d.take(i + 1 - start)[k],
            ) by {
                if k < i - start {
                    assert(d.take(i - start)[k] == d.take(i + 1 - start)[k]);
                } else {
                    assert(d.take(i + 1 - start)[k] == d[i - start]);
                }
            }
            lemma_dec_val_step(d, i - start);
            lemma_dec_val_nonneg(d.take(i - start));
        }
        acc = match acc.checked_mul(10) {
            Some(x) => x,
            None => {
                proof {
                    assert(dec_val(d.take(i + 1 - start)) > u64::MAX);
                    lemma_dec_val_take_le_full(d, i + 1 - start);
                }
                return None;
            },
        };
        acc = match acc.checked_add(digit) {
            Some(x) => x,
            None => {
                proof {
                    assert(dec_val(d.take(i + 1 - start)) > u64::MAX);
                    lemma_dec_val_take_le_full(d, i + 1 - start);
                }
                return None;
            },
        };
        i += 1;
    }
    proof {
        assert(d.take(len - start) =~= d);
    }
    Some(acc)
}

/// Helper: on a digit sequence the value of a prefix never exceeds the
/// value of the whole, so an overflowing prefix means an overflowing
/// whole.
proof fn lemma_dec_val_take_le_full(d: Seq<char>, j: int)
    requires
        0 <= j <= d.len(),
        all_digits(d.take(j)),
        dec_val(d.take(j)) > u64::MAX,
    ensures
        !all_digits(d) || dec_val(d) > u64::MAX,
{
    if all_digits(d) {
        lemma_dec_val_take_le(d, j);
    }
}

} // verus!
