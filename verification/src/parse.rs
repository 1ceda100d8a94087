//! The header grammar: a specification of every payload shape, the ordered
//! dispatcher over the recognized tags, and the executable parser proved
//! equal to the specification.
use vstd::prelude::*;
use crate::SipError;
use crate::scan::{
    run_end, lemma_run_end, is_space_b, is_digit_b, is_alpha_b, is_alnum_b, is_tag_b,
    is_text_b, is_uri_b, is_name_b, is_dec_b, sp_u32, parse_u32_at, scan, at, Class,
    class_pred, has_at, match_at, crlf, digits_val,
};
use crate::tags::{HeaderKind, Shape, spec_tag, shape_of, kind_of_tag, kind_shape, find_kind, tag_bytes};
use crate::vocab::{Method, ContentType, Language, method_tok, method_of_token, find_method, ctype_tok, lang_tok, ctype_bytes, lang_bytes};
use crate::model::{
    Header, HeaderV, NamedV, NamedHeader, Uri, Params, params_insert, dec_wf, dot_count,
};

verus! {

/// The line terminator, expected at `p`.
pub open spec fn sp_crlf(s: Seq<u8>, p: int) -> Result<int, SipError> {
    if p + 2 <= s.len() && s[p] == 13 && s[p + 1] == 10 {
        Ok(p + 2)
    } else {
        Err(SipError::GrammarMismatch)
    }
}

fn expect_crlf(s: &[u8], p: usize) -> (r: Result<usize, SipError>)
    requires
        p <= s@.len(),
    ensures
        match r {
            Ok(e) => sp_crlf(s@, p as int) == Ok::<int, SipError>(e as int) && p < e <= s@.len(),
            Err(er) => sp_crlf(s@, p as int) == Err::<int, SipError>(er),
        },
{
    if s.len() - p >= 2 && at(s, p) == 13 && at(s, p + 1) == 10 {
        Ok(p + 2)
    } else {
        Err(SipError::GrammarMismatch)
    }
}

/// Free text up to the line terminator.
pub open spec fn sp_text(s: Seq<u8>, p: int) -> Result<(Seq<u8>, int), SipError> {
    let e = run_end(s, p, |b: u8| is_text_b(b));
    if e < s.len() {
        match sp_crlf(s, e) {
            Ok(e2) => Ok((s.subrange(p, e), e2)),
            Err(er) => Err(er),
        }
    } else {
        Err(SipError::GrammarMismatch)
    }
}

fn parse_text_at(s: &[u8], p: usize) -> (r: Result<(Vec<u8>, usize), SipError>)
    requires
        p <= s@.len(),
    ensures
        match r {
            Ok((v, e)) => sp_text(s@, p as int) == Ok::<(Seq<u8>, int), SipError>((v@, e as int))
                && p < e <= s@.len(),
            Err(er) => sp_text(s@, p as int) == Err::<(Seq<u8>, int), SipError>(er),
        },
{
    let e = scan(s, p, Class::Text);
    proof {
        assert(class_pred(Class::Text) == (|b: u8| is_text_b(b)));
    }
    if e < s.len() {
        match expect_crlf(s, e) {
            Ok(e2) => Ok((vstd::slice::slice_to_vec(vstd::slice::slice_subrange(s, p, e)), e2)),
            Err(er) => Err(er),
        }
    } else {
        Err(SipError::GrammarMismatch)
    }
}

/// A decimal literal: a run of digits and dots that forms a well-formed
/// number (at least one digit, at most one dot), up to the line terminator.
pub open spec fn sp_dec(s: Seq<u8>, p: int) -> Result<(Seq<u8>, int), SipError> {
    let e = run_end(s, p, |b: u8| is_dec_b(b));
    if e == p {
        Err(SipError::GrammarMismatch)
    } else if !dec_wf(s.subrange(p, e)) {
        Err(SipError::FormatError)
    } else {
        match sp_crlf(s, e) {
            Ok(e2) => Ok((s.subrange(p, e), e2)),
            Err(er) => Err(er),
        }
    }
}

fn parse_dec_at(s: &[u8], p: usize) -> (r: Result<(Vec<u8>, usize), SipError>)
    requires
        p <= s@.len(),
    ensures
        match r {
            Ok((v, e)) => sp_dec(s@, p as int) == Ok::<(Seq<u8>, int), SipError>((v@, e as int))
                && p < e <= s@.len(),
            Err(er) => sp_dec(s@, p as int) == Err::<(Seq<u8>, int), SipError>(er),
        },
{
    let e = scan(s, p, Class::Dec);
    proof {
        assert(class_pred(Class::Dec) == (|b: u8| is_dec_b(b)));
        lemma_run_end(s@, p as int, |b: u8| is_dec_b(b));
    }
    if e == p {
        return Err(SipError::GrammarMismatch);
    }
    let ghost d = s@.subrange(p as int, e as int);
    let mut dots: usize = 0;
    let mut saw_digit: bool = false;
    let mut i: usize = p;
    while i < e
        invariant
            p <= i <= e <= s@.len(),
            d == s@.subrange(p as int, e as int),
            dots == dot_count(d.subrange(0, i - p)),
            saw_digit == exists|j: int| 0 <= j < i - p && is_digit_b(#[trigger] d[j]),
            dots <= i - p,
        decreases e - i,
    {
        let c = at(s, i);
        proof {
            assert(d.subrange(0, i + 1 - p).drop_last() =~= d.subrange(0, i - p));
            assert(d.subrange(0, i + 1 - p).last() == s@[i as int]);
            assert(d[i - p] == s@[i as int]);
        }
        if c == 46 {
            dots = dots + 1;
        } else if crate::scan::is_digit_x(c) {
            saw_digit = true;
        }
        i = i + 1;
    }
    proof {
        assert(d.subrange(0, e - p) =~= d);
    }
    if !saw_digit || dots > 1 {
        proof {
            assert(!dec_wf(d));
        }
        return Err(SipError::FormatError);
    }
    proof {
        lemma_run_end(s@, p as int, |b: u8| is_dec_b(b));
        assert(dec_wf(d));
    }
    match expect_crlf(s, e) {
        Ok(e2) => Ok((vstd::slice::slice_to_vec(vstd::slice::slice_subrange(s, p, e)), e2)),
        Err(er) => Err(er),
    }
}

/// One method token of the closed vocabulary.
pub open spec fn sp_method(s: Seq<u8>, p: int) -> Result<(Method, int), SipError> {
    let e = run_end(s, p, |b: u8| is_alpha_b(b));
    if e == p {
        Err(SipError::GrammarMismatch)
    } else {
        match method_of_token(s.subrange(p, e)) {
            Some(m) => Ok((m, e)),
            None => Err(SipError::GrammarMismatch),
        }
    }
}

fn parse_method_at(s: &[u8], p: usize) -> (r: Result<(Method, usize), SipError>)
    requires
        p <= s@.len(),
    ensures
        match r {
            Ok((m, e)) => sp_method(s@, p as int) == Ok::<(Method, int), SipError>((m, e as int))
                && p < e <= s@.len(),
            Err(er) => sp_method(s@, p as int) == Err::<(Method, int), SipError>(er),
        },
{
    let e = scan(s, p, Class::Alpha);
    proof {
        assert(class_pred(Class::Alpha) == (|b: u8| is_alpha_b(b)));
        lemma_run_end(s@, p as int, |b: u8| is_alpha_b(b));
    }
    if e == p {
        return Err(SipError::GrammarMismatch);
    }
    match find_method(s, p, e) {
        Some(m) => Ok((m, e)),
        None => Err(SipError::GrammarMismatch),
    }
}

/// A comma-separated method list: one or more methods, separated by `,` with
/// one optional following space; the list stops, without consuming the
/// separator, where no further method follows.
pub open spec fn sp_method_list(s: Seq<u8>, p: int) -> Result<(Seq<Method>, int), SipError>
    decreases s.len() - p,
    when 0 <= p <= s.len()
    via sp_method_list_dec
{
    match sp_method(s, p) {
        Err(er) => Err(er),
        Ok((m, e)) => {
            if e < s.len() && s[e] == 44 {
                let q = if e + 1 < s.len() && s[e + 1] == 32 {
                    e + 2
                } else {
                    e + 1
                };
                if q <= s.len() {
                    match sp_method_list(s, q) {
                        Ok((rest, e2)) => Ok((seq![m] + rest, e2)),
                        Err(_) => Ok((seq![m], e)),
                    }
                } else {
                    Ok((seq![m], e))
                }
            } else {
                Ok((seq![m], e))
            }
        },
    }
}

#[via_fn]
proof fn sp_method_list_dec(s: Seq<u8>, p: int) {
    lemma_run_end(s, p, |b: u8| is_alpha_b(b));
}

fn parse_method_list(s: &[u8], p: usize) -> (r: Result<(Vec<Method>, usize), SipError>)
    requires
        p <= s@.len(),
    ensures
        match r {
            Ok((ms, e)) => sp_method_list(s@, p as int) == Ok::<(Seq<Method>, int), SipError>(
                (ms@, e as int),
            ) && p < e <= s@.len(),
            Err(er) => sp_method_list(s@, p as int) == Err::<(Seq<Method>, int), SipError>(er),
        },
    decreases s@.len() - p,
{
    match parse_method_at(s, p) {
        Err(er) => Err(er),
        Ok((m, e)) => {
            if e < s.len() && at(s, e) == 44 {
                let q: usize = if e + 1 < s.len() && at(s, e + 1) == 32 {
                    e + 2
                } else {
                    e + 1
                };
                match parse_method_list(s, q) {
                    Ok((rest, e2)) => {
                        let mut ms = rest;
                        ms.insert(0, m);
                        proof {
                            assert(ms@ =~= seq![m] + rest@);
                        }
                        Ok((ms, e2))
                    },
                    Err(_) => {
                        let mut ms: Vec<Method> = Vec::new();
                        ms.push(m);
                        proof {
                            assert(ms@ =~= seq![m]);
                        }
                        Ok((ms, e))
                    },
                }
            } else {
                let mut ms: Vec<Method> = Vec::new();
                ms.push(m);
                proof {
                    assert(ms@ =~= seq![m]);
                }
                Ok((ms, e))
            }
        },
    }
}

/// One bare word: a non-empty run of letters.
pub open spec fn sp_word(s: Seq<u8>, p: int) -> Result<(Seq<u8>, int), SipError> {
    let e = run_end(s, p, |b: u8| is_alpha_b(b));
    if e == p {
        Err(SipError::GrammarMismatch)
    } else {
        Ok((s.subrange(p, e), e))
    }
}

/// A comma-separated word list, with the same separator rule as the method
/// list.
pub open spec fn sp_word_list(s: Seq<u8>, p: int) -> Result<(Seq<Seq<u8>>, int), SipError>
    decreases s.len() - p,
    when 0 <= p <= s.len()
    via sp_word_list_dec
{
    match sp_word(s, p) {
        Err(er) => Err(er),
        Ok((wd, e)) => {
            if e < s.len() && s[e] == 44 {
                let q = if e + 1 < s.len() && s[e + 1] == 32 {
                    e + 2
                } else {
                    e + 1
                };
                if q <= s.len() {
                    match sp_word_list(s, q) {
                        Ok((rest, e2)) => Ok((seq![wd] + rest, e2)),
                        Err(_) => Ok((seq![wd], e)),
                    }
                } else {
                    Ok((seq![wd], e))
                }
            } else {
                Ok((seq![wd], e))
            }
        },
    }
}

#[via_fn]
proof fn sp_word_list_dec(s: Seq<u8>, p: int) {
    lemma_run_end(s, p, |b: u8| is_alpha_b(b));
}

fn parse_word_list(s: &[u8], p: usize) -> (r: Result<(Vec<Vec<u8>>, usize), SipError>)
    requires
        p <= s@.len(),
    ensures
        match r {
            Ok((ws, e)) => sp_word_list(s@, p as int) == Ok::<(Seq<Seq<u8>>, int), SipError>(
                (crate::model::words_view(ws@), e as int),
            ) && p < e <= s@.len(),
            Err(er) => sp_word_list(s@, p as int) == Err::<(Seq<Seq<u8>>, int), SipError>(er),
        },
    decreases s@.len() - p,
{
    let e = scan(s, p, Class::Alpha);
    proof {
        assert(class_pred(Class::Alpha) == (|b: u8| is_alpha_b(b)));
        lemma_run_end(s@, p as int, |b: u8| is_alpha_b(b));
    }
    if e == p {
        return Err(SipError::GrammarMismatch);
    }
    let wd = vstd::slice::slice_to_vec(vstd::slice::slice_subrange(s, p, e));
    if e < s.len() && at(s, e) == 44 {
        let q: usize = if e + 1 < s.len() && at(s, e + 1) == 32 {
            e + 2
        } else {
            e + 1
        };
        match parse_word_list(s, q) {
            Ok((rest, e2)) => {
                let mut ws = rest;
                ws.insert(0, wd);
                proof {
                    assert(crate::model::words_view(ws@) =~= seq![s@.subrange(p as int, e as int)]
                        + sp_word_list(s@, q as int)->Ok_0.0);
                }
                Ok((ws, e2))
            },
            Err(_) => {
                let mut ws: Vec<Vec<u8>> = Vec::new();
                ws.push(wd);
                proof {
                    assert(crate::model::words_view(ws@) =~= seq![s@.subrange(p as int, e as int)]);
                }
                Ok((ws, e))
            },
        }
    } else {
        let mut ws: Vec<Vec<u8>> = Vec::new();
        ws.push(wd);
        proof {
            assert(crate::model::words_view(ws@) =~= seq![s@.subrange(p as int, e as int)]);
        }
        Ok((ws, e))
    }
}

/// The optional display name: a quoted run of letters and spaces, or a bare
/// non-empty run of letters; anything else is read as no name at all.
pub open spec fn sp_display(s: Seq<u8>, p: int) -> (Option<Seq<u8>>, int) {
    if p < s.len() && s[p] == 34 {
        let e = run_end(s, p + 1, |b: u8| is_name_b(b));
        if e < s.len() && s[e] == 34 {
            (Some(s.subrange(p + 1, e)), e + 1)
        } else {
            (None, p)
        }
    } else {
        let e = run_end(s, p, |b: u8| is_alpha_b(b));
        if e == p {
            (None, p)
        } else {
            (Some(s.subrange(p, e)), e)
        }
    }
}

fn parse_display(s: &[u8], p: usize) -> (r: (Option<Vec<u8>>, usize))
    requires
        p <= s@.len(),
    ensures
        r.1 <= s@.len(),
        p <= r.1,
        match r.0 {
            Some(v) => sp_display(s@, p as int) == (Some(v@), r.1 as int),
            None => sp_display(s@, p as int) == (None::<Seq<u8>>, r.1 as int),
        },
{
    if p < s.len() && at(s, p) == 34 {
        let e = scan(s, p + 1, Class::Name);
        proof {
            assert(class_pred(Class::Name) == (|b: u8| is_name_b(b)));
            lemma_run_end(s@, p + 1, |b: u8| is_name_b(b));
        }
        if e < s.len() && at(s, e) == 34 {
            (Some(vstd::slice::slice_to_vec(vstd::slice::slice_subrange(s, p + 1, e))), e + 1)
        } else {
            (None, p)
        }
    } else {
        let e = scan(s, p, Class::Alpha);
        proof {
            assert(class_pred(Class::Alpha) == (|b: u8| is_alpha_b(b)));
            lemma_run_end(s@, p as int, |b: u8| is_alpha_b(b));
        }
        if e == p {
            (None, p)
        } else {
            (Some(vstd::slice::slice_to_vec(vstd::slice::slice_subrange(s, p, e))), e)
        }
    }
}

/// Zero or more `;key=value` groups, greedy but non-fatal: the first group
/// that does not match ends the list without consuming anything of it.
/// A duplicate key overwrites the value stored for it.
pub open spec fn sp_params(s: Seq<u8>, p: int, acc: Seq<(Seq<u8>, Seq<u8>)>) -> (
    Seq<(Seq<u8>, Seq<u8>)>,
    int,
)
    decreases s.len() - p,
    when 0 <= p <= s.len()
    via sp_params_dec
{
    if p < s.len() && s[p] == 59 {
        let ke = run_end(s, p + 1, |b: u8| is_alpha_b(b));
        if ke < s.len() && s[ke] == 61 {
            let ve = run_end(s, ke + 1, |b: u8| is_alnum_b(b));
            sp_params(s, ve, params_insert(acc, s.subrange(p + 1, ke), s.subrange(ke + 1, ve)))
        } else {
            (acc, p)
        }
    } else {
        (acc, p)
    }
}

#[via_fn]
proof fn sp_params_dec(s: Seq<u8>, p: int, acc: Seq<(Seq<u8>, Seq<u8>)>) {
    if 0 <= p && p + 1 <= s.len() {
        lemma_run_end(s, p + 1, |b: u8| is_alpha_b(b));
        let ke = run_end(s, p + 1, |b: u8| is_alpha_b(b));
        if ke + 1 <= s.len() {
            lemma_run_end(s, ke + 1, |b: u8| is_alnum_b(b));
        }
    }
}

fn parse_params(s: &[u8], p: usize, acc: Params) -> (r: (Params, usize))
    requires
        p <= s@.len(),
    ensures
        sp_params(s@, p as int, acc@) == (r.0@, r.1 as int),
        p <= r.1 <= s@.len(),
    decreases s@.len() - p,
{
    if p < s.len() && at(s, p) == 59 {
        let ke = scan(s, p + 1, Class::Alpha);
        proof {
            assert(class_pred(Class::Alpha) == (|b: u8| is_alpha_b(b)));
            lemma_run_end(s@, p + 1, |b: u8| is_alpha_b(b));
        }
        if ke < s.len() && at(s, ke) == 61 {
            let ve = scan(s, ke + 1, Class::Alnum);
            proof {
                assert(class_pred(Class::Alnum) == (|b: u8| is_alnum_b(b)));
                lemma_run_end(s@, ke + 1, |b: u8| is_alnum_b(b));
            }
            let k = vstd::slice::slice_to_vec(vstd::slice::slice_subrange(s, p + 1, ke));
            let v = vstd::slice::slice_to_vec(vstd::slice::slice_subrange(s, ke + 1, ve));
            let mut acc2 = acc;
            acc2.insert(k, v);
            parse_params(s, ve, acc2)
        } else {
            (acc, p)
        }
    } else {
        (acc, p)
    }
}

/// The grammar of the original standalone parameter scanner: starting at the
/// front of `input`, consume as many `;key=value` groups as match.
pub fn parse_named_field_params(input: &[u8]) -> (r: (Params, usize))
    ensures
        sp_params(input@, 0, Seq::<(Seq<u8>, Seq<u8>)>::empty()) == (r.0@, r.1 as int),
        r.1 <= input@.len(),
{
    let acc = Params::new();
    parse_params(input, 0, acc)
}

/// A named-address payload: optional display name, whitespace, `<uri>`,
/// parameters, line terminator.
pub open spec fn sp_named(s: Seq<u8>, p: int) -> Result<(NamedV, int), SipError> {
    let (name, p1) = sp_display(s, p);
    let p2 = run_end(s, p1, |b: u8| is_space_b(b));
    if p2 < s.len() && s[p2] == 60 {
        let ue = run_end(s, p2 + 1, |b: u8| is_uri_b(b));
        if ue > p2 + 1 && ue < s.len() && s[ue] == 62 {
            let (ps, pe) = sp_params(s, ue + 1, Seq::empty());
            match sp_crlf(s, pe) {
                Ok(e2) => Ok((NamedV { name, uri: s.subrange(p2 + 1, ue), params: ps }, e2)),
                Err(er) => Err(er),
            }
        } else {
            Err(SipError::GrammarMismatch)
        }
    } else {
        Err(SipError::GrammarMismatch)
    }
}

fn parse_named_at(s: &[u8], p: usize) -> (r: Result<(NamedHeader, usize), SipError>)
    requires
        p <= s@.len(),
    ensures
        match r {
            Ok((nh, e)) => sp_named(s@, p as int) == Ok::<(NamedV, int), SipError>((nh@, e as int))
                && p < e <= s@.len(),
            Err(er) => sp_named(s@, p as int) == Err::<(NamedV, int), SipError>(er),
        },
{
    let (name, p1) = parse_display(s, p);
    let p2 = scan(s, p1, Class::Space);
    proof {
        assert(class_pred(Class::Space) == (|b: u8| is_space_b(b)));
    }
    if p2 < s.len() && at(s, p2) == 60 {
        let ue = scan(s, p2 + 1, Class::Uri);
        proof {
            assert(class_pred(Class::Uri) == (|b: u8| is_uri_b(b)));
            lemma_run_end(s@, p2 + 1, |b: u8| is_uri_b(b));
        }
        if ue > p2 + 1 && ue < s.len() && at(s, ue) == 62 {
            let acc = Params::new();
            let (ps, pe) = parse_params(s, ue + 1, acc);
            match expect_crlf(s, pe) {
                Ok(e2) => {
                    let uri = Uri::new(
                        vstd::slice::slice_to_vec(vstd::slice::slice_subrange(s, p2 + 1, ue)),
                    );
                    let nh = NamedHeader { display_name: name, uri, params: ps };
                    Ok((nh, e2))
                },
                Err(er) => Err(er),
            }
        } else {
            Err(SipError::GrammarMismatch)
        }
    } else {
        Err(SipError::GrammarMismatch)
    }
}

/// A content-type token of the closed vocabulary, up to the line terminator.
pub open spec fn sp_ctype(s: Seq<u8>, p: int) -> Result<(ContentType, int), SipError> {
    if has_at(s, p, ctype_tok(ContentType::Sdp)) {
        match sp_crlf(s, p + ctype_tok(ContentType::Sdp).len()) {
            Ok(e2) => Ok((ContentType::Sdp, e2)),
            Err(er) => Err(er),
        }
    } else if has_at(s, p, ctype_tok(ContentType::PlainText)) {
        match sp_crlf(s, p + ctype_tok(ContentType::PlainText).len()) {
            Ok(e2) => Ok((ContentType::PlainText, e2)),
            Err(er) => Err(er),
        }
    } else {
        Err(SipError::GrammarMismatch)
    }
}

fn parse_ctype_at(s: &[u8], p: usize) -> (r: Result<(ContentType, usize), SipError>)
    requires
        p <= s@.len(),
    ensures
        match r {
            Ok((c, e)) => sp_ctype(s@, p as int) == Ok::<(ContentType, int), SipError>(
                (c, e as int),
            ) && p < e <= s@.len(),
            Err(er) => sp_ctype(s@, p as int) == Err::<(ContentType, int), SipError>(er),
        },
{
    let n = s.len();
    let sdp = ctype_bytes(ContentType::Sdp);
    let plain = ctype_bytes(ContentType::PlainText);
    if match_at(s, p, sdp.as_slice()) {
        match expect_crlf(s, p + sdp.len()) {
            Ok(e2) => Ok((ContentType::Sdp, e2)),
            Err(er) => Err(er),
        }
    } else if match_at(s, p, plain.as_slice()) {
        match expect_crlf(s, p + plain.len()) {
            Ok(e2) => Ok((ContentType::PlainText, e2)),
            Err(er) => Err(er),
        }
    } else {
        Err(SipError::GrammarMismatch)
    }
}

/// A language token of the closed vocabulary, up to the line terminator.
pub open spec fn sp_lang(s: Seq<u8>, p: int) -> Result<(Language, int), SipError> {
    if has_at(s, p, lang_tok(Language::English)) {
        match sp_crlf(s, p + lang_tok(Language::English).len()) {
            Ok(e2) => Ok((Language::English, e2)),
            Err(er) => Err(er),
        }
    } else {
        Err(SipError::GrammarMismatch)
    }
}

fn parse_lang_at(s: &[u8], p: usize) -> (r: Result<(Language, usize), SipError>)
    requires
        p <= s@.len(),
    ensures
        match r {
            Ok((l, e)) => sp_lang(s@, p as int) == Ok::<(Language, int), SipError>((l, e as int))
                && p < e <= s@.len(),
            Err(er) => sp_lang(s@, p as int) == Err::<(Language, int), SipError>(er),
        },
{
    let n = s.len();
    let en = lang_bytes(Language::English);
    if match_at(s, p, en.as_slice()) {
        match expect_crlf(s, p + en.len()) {
            Ok(e2) => Ok((Language::English, e2)),
            Err(er) => Err(er),
        }
    } else {
        Err(SipError::GrammarMismatch)
    }
}

/// The CSeq payload: sequence number, whitespace, method, line terminator.
pub open spec fn sp_cseq(s: Seq<u8>, p: int) -> Result<((u32, Method), int), SipError> {
    match sp_u32(s, p) {
        Err(er) => Err(er),
        Ok((n, e)) => {
            let p2 = run_end(s, e, |b: u8| is_space_b(b));
            match sp_method(s, p2) {
                Err(er) => Err(er),
                Ok((m, e2)) => match sp_crlf(s, e2) {
                    Ok(e3) => Ok(((n, m), e3)),
                    Err(er) => Err(er),
                },
            }
        },
    }
}

fn parse_cseq_at(s: &[u8], p: usize) -> (r: Result<((u32, Method), usize), SipError>)
    requires
        p <= s@.len(),
    ensures
        match r {
            Ok(((n, m), e)) => sp_cseq(s@, p as int) == Ok::<((u32, Method), int), SipError>(
                ((n, m), e as int),
            ) && p < e <= s@.len(),
            Err(er) => sp_cseq(s@, p as int) == Err::<((u32, Method), int), SipError>(er),
        },
{
    match parse_u32_at(s, p) {
        Err(er) => Err(er),
        Ok((n, e)) => {
            let p2 = scan(s, e, Class::Space);
            proof {
                assert(class_pred(Class::Space) == (|b: u8| is_space_b(b)));
            }
            match parse_method_at(s, p2) {
                Err(er) => Err(er),
                Ok((m, e2)) => match expect_crlf(s, e2) {
                    Ok(e3) => Ok(((n, m), e3)),
                    Err(er) => Err(er),
                },
            }
        },
    }
}

/// The payload grammar of kind `k` (whose tag bytes are `t`), applied at `p`.
pub open spec fn sp_payload(k: HeaderKind, t: Seq<u8>, s: Seq<u8>, p: int) -> Result<
    (HeaderV, int),
    SipError,
> {
    match shape_of(k) {
        Shape::Num => match sp_u32(s, p) {
            Err(er) => Err(er),
            Ok((n, e)) => match sp_crlf(s, e) {
                Ok(e2) => Ok((HeaderV::Num(t, n), e2)),
                Err(er) => Err(er),
            },
        },
        Shape::Dec => match sp_dec(s, p) {
            Err(er) => Err(er),
            Ok((d, e2)) => Ok((HeaderV::Dec(t, d), e2)),
        },
        Shape::Text => match sp_text(s, p) {
            Err(er) => Err(er),
            Ok((v, e2)) => Ok((HeaderV::Text(t, v), e2)),
        },
        Shape::Methods => match sp_method_list(s, p) {
            Err(er) => Err(er),
            Ok((ms, e)) => match sp_crlf(s, e) {
                Ok(e2) => Ok((HeaderV::Methods(t, ms), e2)),
                Err(er) => Err(er),
            },
        },
        Shape::Words => match sp_word_list(s, p) {
            Err(er) => Err(er),
            Ok((ws, e)) => match sp_crlf(s, e) {
                Ok(e2) => Ok((HeaderV::Words(t, ws), e2)),
                Err(er) => Err(er),
            },
        },
        Shape::Named => match sp_named(s, p) {
            Err(er) => Err(er),
            Ok((nv, e2)) => Ok((HeaderV::Named(t, nv), e2)),
        },
        Shape::CType => match sp_ctype(s, p) {
            Err(er) => Err(er),
            Ok((c, e2)) => Ok((HeaderV::CType(t, c), e2)),
        },
        Shape::Lang => match sp_lang(s, p) {
            Err(er) => Err(er),
            Ok((l, e2)) => Ok((HeaderV::Lang(t, l), e2)),
        },
        Shape::CSeqS => match sp_cseq(s, p) {
            Err(er) => Err(er),
            Ok(((n, m), e2)) => Ok((HeaderV::CSeqV(n, m), e2)),
        },
    }
}

/// Build the header of a Num-shaped kind from its parsed payload.
fn header_from_num(k: HeaderKind, p: u32) -> (h: Header)
    requires
        shape_of(k) == Shape::Num,
    ensures
        h@ == HeaderV::Num(spec_tag(k), p),
{
    match k {
        HeaderKind::ContentLength => Header::ContentLength(p),
        HeaderKind::Expires => Header::Expires(p),
        HeaderKind::MaxForwards => Header::MaxForwards(p),
        HeaderKind::MinExpires => Header::MinExpires(p),
        HeaderKind::Timestamp => Header::Timestamp(p),
        _ => Header::ContentLength(p),
    }
}

/// Build the header of a Text-shaped kind from its parsed payload.
fn header_from_text(k: HeaderKind, p: Vec<u8>) -> (h: Header)
    requires
        shape_of(k) == Shape::Text,
    ensures
        h@ == HeaderV::Text(spec_tag(k), p@),
{
    match k {
        HeaderKind::AlertInfo => Header::AlertInfo(p),
        HeaderKind::AuthenticationInfo => Header::AuthenticationInfo(p),
        HeaderKind::Authorization => Header::Authorization(p),
        HeaderKind::CallInfo => Header::CallInfo(p),
        HeaderKind::CallId => Header::CallId(p),
        HeaderKind::ContentDisposition => Header::ContentDisposition(p),
        HeaderKind::Date => Header::Date(p),
        HeaderKind::ErrorInfo => Header::ErrorInfo(p),
        HeaderKind::InReplyTo => Header::InReplyTo(p),
        HeaderKind::Organization => Header::Organization(p),
        HeaderKind::Priority => Header::Priority(p),
        HeaderKind::ProxyAuthenticate => Header::ProxyAuthenticate(p),
        HeaderKind::ProxyAuthorization => Header::ProxyAuthorization(p),
        HeaderKind::ProxyRequire => Header::ProxyRequire(p),
        HeaderKind::RecordRoute => Header::RecordRoute(p),
        HeaderKind::Require => Header::Require(p),
        HeaderKind::RetryAfter => Header::RetryAfter(p),
        HeaderKind::Route => Header::Route(p),
        HeaderKind::Server => Header::Server(p),
        HeaderKind::Subject => Header::Subject(p),
        HeaderKind::Unsupported => Header::Unsupported(p),
        HeaderKind::UserAgent => Header::UserAgent(p),
        HeaderKind::Via => Header::Via(p),
        HeaderKind::Warning => Header::Warning(p),
        HeaderKind::WwwAuthenticate => Header::WwwAuthenticate(p),
        _ => Header::AlertInfo(p),
    }
}

/// Build the header of a Methods-shaped kind from its parsed payload.
fn header_from_methods(k: HeaderKind, p: Vec<Method>) -> (h: Header)
    requires
        shape_of(k) == Shape::Methods,
    ensures
        h@ == HeaderV::Methods(spec_tag(k), p@),
{
    match k {
        HeaderKind::Accept => Header::Accept(p),
        HeaderKind::Allow => Header::Allow(p),
        _ => Header::Accept(p),
    }
}

/// Build the header of a Named-shaped kind from its parsed payload.
fn header_from_named(k: HeaderKind, p: NamedHeader) -> (h: Header)
    requires
        shape_of(k) == Shape::Named,
    ensures
        h@ == HeaderV::Named(spec_tag(k), p@),
{
    match k {
        HeaderKind::Contact => Header::Contact(p),
        HeaderKind::From => Header::From(p),
        HeaderKind::ReplyTo => Header::ReplyTo(p),
        HeaderKind::To => Header::To(p),
        _ => Header::Contact(p),
    }
}

/// Build the header of a CType-shaped kind from its parsed payload.
fn header_from_ctype(k: HeaderKind, p: ContentType) -> (h: Header)
    requires
        shape_of(k) == Shape::CType,
    ensures
        h@ == HeaderV::CType(spec_tag(k), p),
{
    match k {
        HeaderKind::AcceptEncoding => Header::AcceptEncoding(p),
        HeaderKind::ContentEncoding => Header::ContentEncoding(p),
        HeaderKind::ContentType => Header::ContentType(p),
        _ => Header::AcceptEncoding(p),
    }
}

/// Build the header of a Lang-shaped kind from its parsed payload.
fn header_from_lang(k: HeaderKind, p: Language) -> (h: Header)
    requires
        shape_of(k) == Shape::Lang,
    ensures
        h@ == HeaderV::Lang(spec_tag(k), p),
{
    match k {
        HeaderKind::AcceptLanguage => Header::AcceptLanguage(p),
        HeaderKind::ContentLanguage => Header::ContentLanguage(p),
        _ => Header::AcceptLanguage(p),
    }
}

/// Build the header of a Dec-shaped kind from its parsed payload.
fn header_from_dec(k: HeaderKind, p: Vec<u8>) -> (h: Header)
    requires
        shape_of(k) == Shape::Dec,
    ensures
        h@ == HeaderV::Dec(spec_tag(k), p@),
{
    Header::MimeVersion(p)
}

/// Build the header of a Words-shaped kind from its parsed payload.
fn header_from_words(k: HeaderKind, p: Vec<Vec<u8>>) -> (h: Header)
    requires
        shape_of(k) == Shape::Words,
    ensures
        h@ == HeaderV::Words(spec_tag(k), crate::model::words_view(p@)),
{
    Header::Supported(p)
}

/// The whole dispatcher, as a specification: the maximal run of tag
/// characters, optional whitespace, a colon, optional whitespace, then the
/// payload grammar of the recognized tag; every header consumes its own line
/// terminator.  A line whose tag is not recognized (or that has no tag or no
/// colon at all) is `NoMatchingHeader`.
///
/// Because every grammar of the dispatcher demands a colon (after optional
/// whitespace) directly behind its tag literal, a tag that merely prefixes
/// another ("Accept" before "Accept-Encoding") can never capture the longer
/// tag's line, so trying the alternatives in dispatcher order is the same as
/// this single lookup of the maximal tag run.
pub open spec fn spec_parse_header(s: Seq<u8>) -> Result<(HeaderV, int), SipError> {
    let te = run_end(s, 0, |b: u8| is_tag_b(b));
    if te == 0 {
        Err(SipError::NoMatchingHeader)
    } else {
        let p1 = run_end(s, te, |b: u8| is_space_b(b));
        if !(p1 < s.len() && s[p1] == 58) {
            Err(SipError::NoMatchingHeader)
        } else {
            let p2 = run_end(s, p1 + 1, |b: u8| is_space_b(b));
            match kind_of_tag(s.subrange(0, te)) {
                None => Err(SipError::NoMatchingHeader),
                Some(k) => sp_payload(k, s.subrange(0, te), s, p2),
            }
        }
    }
}

/// Parse one header line.  Returns the parsed header and the number of bytes
/// consumed (through the line terminator), or the error the specification
/// assigns to this line.
#[verifier::rlimit(100)]
pub fn parse_header(input: &[u8]) -> (r: Result<(Header, usize), SipError>)
    ensures
        match r {
            Ok((h, n)) => spec_parse_header(input@) == Ok::<(HeaderV, int), SipError>(
                (h@, n as int),
            ) && 0 < n <= input@.len(),
            Err(er) => spec_parse_header(input@) == Err::<(HeaderV, int), SipError>(er),
        },
{
    let te = scan(input, 0, Class::Tag);
    proof {
        assert(class_pred(Class::Tag) == (|b: u8| is_tag_b(b)));
        assert(class_pred(Class::Space) == (|b: u8| is_space_b(b)));
    }
    if te == 0 {
        return Err(SipError::NoMatchingHeader);
    }
    let p1 = scan(input, te, Class::Space);
    if !(p1 < input.len() && at(input, p1) == 58) {
        return Err(SipError::NoMatchingHeader);
    }
    let p2 = scan(input, p1 + 1, Class::Space);
    let ghost t = input@.subrange(0, te as int);
    match find_kind(input, 0, te) {
        None => Err(SipError::NoMatchingHeader),
        Some(k) => match kind_shape(k) {
            Shape::Num => match parse_u32_at(input, p2) {
                Err(er) => Err(er),
                Ok((n, e)) => match expect_crlf(input, e) {
                    Ok(e2) => Ok((header_from_num(k, n), e2)),
                    Err(er) => Err(er),
                },
            },
            Shape::Dec => match parse_dec_at(input, p2) {
                Err(er) => Err(er),
                Ok((d, e2)) => Ok((header_from_dec(k, d), e2)),
            },
            Shape::Text => match parse_text_at(input, p2) {
                Err(er) => Err(er),
                Ok((v, e2)) => Ok((header_from_text(k, v), e2)),
            },
            Shape::Methods => match parse_method_list(input, p2) {
                Err(er) => Err(er),
                Ok((ms, e)) => match expect_crlf(input, e) {
                    Ok(e2) => Ok((header_from_methods(k, ms), e2)),
                    Err(er) => Err(er),
                },
            },
            Shape::Words => match parse_word_list(input, p2) {
                Err(er) => Err(er),
                Ok((ws, e)) => match expect_crlf(input, e) {
                    Ok(e2) => Ok((header_from_words(k, ws), e2)),
                    Err(er) => Err(er),
                },
            },
            Shape::Named => match parse_named_at(input, p2) {
                Err(er) => Err(er),
                Ok((nh, e2)) => Ok((header_from_named(k, nh), e2)),
            },
            Shape::CType => match parse_ctype_at(input, p2) {
                Err(er) => Err(er),
                Ok((c, e2)) => Ok((header_from_ctype(k, c), e2)),
            },
            Shape::Lang => match parse_lang_at(input, p2) {
                Err(er) => Err(er),
                Ok((l, e2)) => Ok((header_from_lang(k, l), e2)),
            },
            Shape::CSeqS => match parse_cseq_at(input, p2) {
                Err(er) => Err(er),
                Ok(((n, m), e2)) => Ok((Header::CSeq(n, m), e2)),
            },
        },
    }
}

/// The fallback reading of an unrecognized header line: tag run, colon, free
/// text.  It produces the verbatim `Other(name, value)` pair.
pub open spec fn sp_other(s: Seq<u8>) -> Result<(HeaderV, int), SipError> {
    let te = run_end(s, 0, |b: u8| is_tag_b(b));
    if te == 0 {
        Err(SipError::NoMatchingHeader)
    } else {
        let p1 = run_end(s, te, |b: u8| is_space_b(b));
        if !(p1 < s.len() && s[p1] == 58) {
            Err(SipError::NoMatchingHeader)
        } else {
            let p2 = run_end(s, p1 + 1, |b: u8| is_space_b(b));
            match sp_text(s, p2) {
                Err(er) => Err(er),
                Ok((v, e2)) => Ok((HeaderV::Other(s.subrange(0, te), v), e2)),
            }
        }
    }
}

/// The permissive dispatcher: as `spec_parse_header`, but a line whose tag is
/// recognized by no grammar degrades to the verbatim `Other` capture instead
/// of failing with `NoMatchingHeader`.
pub open spec fn spec_parse_header_or_other(s: Seq<u8>) -> Result<(HeaderV, int), SipError> {
    match spec_parse_header(s) {
        Ok(r) => Ok(r),
        Err(SipError::NoMatchingHeader) => sp_other(s),
        Err(er) => Err(er),
    }
}

/// Parse one header line, keeping unrecognized headers.  The strict
/// dispatcher of `parse_header` is tried first; a line that no grammar
/// recognizes, but that still has the `name: value` form, becomes
/// `Header::Other(name, value)`.
pub fn parse_header_or_other(input: &[u8]) -> (r: Result<(Header, usize), SipError>)
    ensures
        match r {
            Ok((h, n)) => spec_parse_header_or_other(input@) == Ok::<(HeaderV, int), SipError>(
                (h@, n as int),
            ) && 0 < n <= input@.len(),
            Err(er) => spec_parse_header_or_other(input@) == Err::<(HeaderV, int), SipError>(er),
        },
{
    match parse_header(input) {
        Ok(r) => Ok(r),
        Err(SipError::NoMatchingHeader) => {
            let te = scan(input, 0, Class::Tag);
            proof {
                assert(class_pred(Class::Tag) == (|b: u8| is_tag_b(b)));
                assert(class_pred(Class::Space) == (|b: u8| is_space_b(b)));
            }
            if te == 0 {
                return Err(SipError::NoMatchingHeader);
            }
            let p1 = scan(input, te, Class::Space);
            if !(p1 < input.len() && at(input, p1) == 58) {
                return Err(SipError::NoMatchingHeader);
            }
            let p2 = scan(input, p1 + 1, Class::Space);
            match parse_text_at(input, p2) {
                Err(er) => Err(er),
                Ok((v, e2)) => {
                    let name = vstd::slice::slice_to_vec(
                        vstd::slice::slice_subrange(input, 0, te),
                    );
                    Ok((Header::Other(name, v), e2))
                },
            }
        },
        Err(er) => Err(er),
    }
}

/// The standalone grammar of a single recognized header: its tag literal,
/// optional whitespace, a colon, optional whitespace, its payload.
pub open spec fn sp_header_of(k: HeaderKind, s: Seq<u8>) -> Result<(HeaderV, int), SipError> {
    if has_at(s, 0, spec_tag(k)) {
        let p1 = run_end(s, spec_tag(k).len() as int, |b: u8| is_space_b(b));
        if !(p1 < s.len() && s[p1] == 58) {
            Err(SipError::GrammarMismatch)
        } else {
            let p2 = run_end(s, p1 + 1, |b: u8| is_space_b(b));
            sp_payload(k, spec_tag(k), s, p2)
        }
    } else {
        Err(SipError::GrammarMismatch)
    }
}

/// Try the single grammar of kind `k` against a line.
#[verifier::rlimit(100)]
pub fn parse_header_of(k: HeaderKind, input: &[u8]) -> (r: Result<(Header, usize), SipError>)
    ensures
        match r {
            Ok((h, n)) => sp_header_of(k, input@) == Ok::<(HeaderV, int), SipError>(
                (h@, n as int),
            ) && 0 < n <= input@.len(),
            Err(er) => sp_header_of(k, input@) == Err::<(HeaderV, int), SipError>(er),
        },
{
    let tb = tag_bytes(k);
    proof {
        assert(class_pred(Class::Space) == (|b: u8| is_space_b(b)));
    }
    if !match_at(input, 0, tb.as_slice()) {
        return Err(SipError::GrammarMismatch);
    }
    let p1 = scan(input, tb.len(), Class::Space);
    if !(p1 < input.len() && at(input, p1) == 58) {
        return Err(SipError::GrammarMismatch);
    }
    let p2 = scan(input, p1 + 1, Class::Space);
    let ghost t = spec_tag(k);
    match kind_shape(k) {
        Shape::Num => match parse_u32_at(input, p2) {
            Err(er) => Err(er),
            Ok((n, e)) => match expect_crlf(input, e) {
                Ok(e2) => Ok((header_from_num(k, n), e2)),
                Err(er) => Err(er),
            },
        },
        Shape::Dec => match parse_dec_at(input, p2) {
            Err(er) => Err(er),
            Ok((d, e2)) => Ok((header_from_dec(k, d), e2)),
        },
        Shape::Text => match parse_text_at(input, p2) {
            Err(er) => Err(er),
            Ok((v, e2)) => Ok((header_from_text(k, v), e2)),
        },
        Shape::Methods => match parse_method_list(input, p2) {
            Err(er) => Err(er),
            Ok((ms, e)) => match expect_crlf(input, e) {
                Ok(e2) => Ok((header_from_methods(k, ms), e2)),
                Err(er) => Err(er),
            },
        },
        Shape::Words => match parse_word_list(input, p2) {
            Err(er) => Err(er),
            Ok((ws, e)) => match expect_crlf(input, e) {
                Ok(e2) => Ok((header_from_words(k, ws), e2)),
                Err(er) => Err(er),
            },
        },
        Shape::Named => match parse_named_at(input, p2) {
            Err(er) => Err(er),
            Ok((nh, e2)) => Ok((header_from_named(k, nh), e2)),
        },
        Shape::CType => match parse_ctype_at(input, p2) {
            Err(er) => Err(er),
            Ok((c, e2)) => Ok((header_from_ctype(k, c), e2)),
        },
        Shape::Lang => match parse_lang_at(input, p2) {
            Err(er) => Err(er),
            Ok((l, e2)) => Ok((header_from_lang(k, l), e2)),
        },
        Shape::CSeqS => match parse_cseq_at(input, p2) {
            Err(er) => Err(er),
            Ok(((n, m), e2)) => Ok((Header::CSeq(n, m), e2)),
        },
    }
}

/// The standalone grammar of the `Allow` header.
pub fn parse_allow_header(input: &[u8]) -> (r: Result<(Header, usize), SipError>)
    ensures
        match r {
            Ok((h, n)) => sp_header_of(HeaderKind::Allow, input@) == Ok::<
                (HeaderV, int),
                SipError,
            >((h@, n as int)) && 0 < n <= input@.len(),
            Err(er) => sp_header_of(HeaderKind::Allow, input@) == Err::<(HeaderV, int), SipError>(
                er,
            ),
        },
{
    parse_header_of(HeaderKind::Allow, input)
}

/// The standalone grammar of the `Date` header.
pub fn parse_date_header(input: &[u8]) -> (r: Result<(Header, usize), SipError>)
    ensures
        match r {
            Ok((h, n)) => sp_header_of(HeaderKind::Date, input@) == Ok::<
                (HeaderV, int),
                SipError,
            >((h@, n as int)) && 0 < n <= input@.len(),
            Err(er) => sp_header_of(HeaderKind::Date, input@) == Err::<(HeaderV, int), SipError>(
                er,
            ),
        },
{
    parse_header_of(HeaderKind::Date, input)
}

/// The standalone grammar of the `MaxForwards` header.
pub fn parse_max_forwards_header(input: &[u8]) -> (r: Result<(Header, usize), SipError>)
    ensures
        match r {
            Ok((h, n)) => sp_header_of(HeaderKind::MaxForwards, input@) == Ok::<
                (HeaderV, int),
                SipError,
            >((h@, n as int)) && 0 < n <= input@.len(),
            Err(er) => sp_header_of(HeaderKind::MaxForwards, input@) == Err::<(HeaderV, int), SipError>(
                er,
            ),
        },
{
    parse_header_of(HeaderKind::MaxForwards, input)
}

/// The standalone grammar of the `MimeVersion` header.
pub fn parse_mime_version_header(input: &[u8]) -> (r: Result<(Header, usize), SipError>)
    ensures
        match r {
            Ok((h, n)) => sp_header_of(HeaderKind::MimeVersion, input@) == Ok::<
                (HeaderV, int),
                SipError,
            >((h@, n as int)) && 0 < n <= input@.len(),
            Err(er) => sp_header_of(HeaderKind::MimeVersion, input@) == Err::<(HeaderV, int), SipError>(
                er,
            ),
        },
{
    parse_header_of(HeaderKind::MimeVersion, input)
}

/// The standalone grammar of the `Expires` header.
pub fn parse_expires_header(input: &[u8]) -> (r: Result<(Header, usize), SipError>)
    ensures
        match r {
            Ok((h, n)) => sp_header_of(HeaderKind::Expires, input@) == Ok::<
                (HeaderV, int),
                SipError,
            >((h@, n as int)) && 0 < n <= input@.len(),
            Err(er) => sp_header_of(HeaderKind::Expires, input@) == Err::<(HeaderV, int), SipError>(
                er,
            ),
        },
{
    parse_header_of(HeaderKind::Expires, input)
}

/// The standalone grammar of the `CSeq` header.
pub fn parse_cseq_header(input: &[u8]) -> (r: Result<(Header, usize), SipError>)
    ensures
        match r {
            Ok((h, n)) => sp_header_of(HeaderKind::CSeq, input@) == Ok::<
                (HeaderV, int),
                SipError,
            >((h@, n as int)) && 0 < n <= input@.len(),
            Err(er) => sp_header_of(HeaderKind::CSeq, input@) == Err::<(HeaderV, int), SipError>(
                er,
            ),
        },
{
    parse_header_of(HeaderKind::CSeq, input)
}

/// The standalone grammar of the `To` header.
pub fn parse_to_header(input: &[u8]) -> (r: Result<(Header, usize), SipError>)
    ensures
        match r {
            Ok((h, n)) => sp_header_of(HeaderKind::To, input@) == Ok::<
                (HeaderV, int),
                SipError,
            >((h@, n as int)) && 0 < n <= input@.len(),
            Err(er) => sp_header_of(HeaderKind::To, input@) == Err::<(HeaderV, int), SipError>(
                er,
            ),
        },
{
    parse_header_of(HeaderKind::To, input)
}

/// The standalone grammar of the `Accept` header.
pub fn parse_accept_header(input: &[u8]) -> (r: Result<(Header, usize), SipError>)
    ensures
        match r {
            Ok((h, n)) => sp_header_of(HeaderKind::Accept, input@) == Ok::<
                (HeaderV, int),
                SipError,
            >((h@, n as int)) && 0 < n <= input@.len(),
            Err(er) => sp_header_of(HeaderKind::Accept, input@) == Err::<(HeaderV, int), SipError>(
                er,
            ),
        },
{
    parse_header_of(HeaderKind::Accept, input)
}

/// The standalone grammar of the `Supported` header.
pub fn parse_supported_header(input: &[u8]) -> (r: Result<(Header, usize), SipError>)
    ensures
        match r {
            Ok((h, n)) => sp_header_of(HeaderKind::Supported, input@) == Ok::<
                (HeaderV, int),
                SipError,
            >((h@, n as int)) && 0 < n <= input@.len(),
            Err(er) => sp_header_of(HeaderKind::Supported, input@) == Err::<(HeaderV, int), SipError>(
                er,
            ),
        },
{
    parse_header_of(HeaderKind::Supported, input)
}

/// The standalone grammar of the `ContentType` header.
pub fn parse_content_type_header(input: &[u8]) -> (r: Result<(Header, usize), SipError>)
    ensures
        match r {
            Ok((h, n)) => sp_header_of(HeaderKind::ContentType, input@) == Ok::<
                (HeaderV, int),
                SipError,
            >((h@, n as int)) && 0 < n <= input@.len(),
            Err(er) => sp_header_of(HeaderKind::ContentType, input@) == Err::<(HeaderV, int), SipError>(
                er,
            ),
        },
{
    parse_header_of(HeaderKind::ContentType, input)
}

} // verus!
