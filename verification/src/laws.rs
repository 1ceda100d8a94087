//! The round-trip laws: serializing any well-formed header value and parsing
//! the emitted line (with its terminator) gives the same value back, through
//! the strict dispatcher for recognized headers and through the permissive
//! dispatcher for `Other`.
use vstd::prelude::*;
use crate::SipError;
use crate::scan::{
    run_end, lemma_run_end, lemma_run_end_is, is_space_b, is_digit_b, is_alpha_b, is_alnum_b,
    is_tag_b, is_text_b, is_uri_b, is_name_b, is_dec_b, sp_u32, crlf, colon_space, spec_digits,
    lemma_digits, digits_val,
};
use crate::tags::{
    HeaderKind, Shape, spec_tag, shape_of, kind_of_tag, tag_wf, lemma_tags_wf, lemma_kind_of_self,
};
use crate::vocab::{
    Method, ContentType, Language, method_tok, method_of_token, ctype_tok, lang_tok,
    lemma_method_tok,
};
use crate::model::{
    Header, HeaderV, NamedV, params_insert, lemma_find_key, find_key, params_wf, named_wf, text_wf,
    dec_wf, word_wf, uri_wf, tag_shape_is, hv_wf, other_wf,
};
use crate::parse::{
    sp_crlf, sp_text, sp_dec, sp_method, sp_method_list, sp_word, sp_word_list, sp_display,
    sp_params, sp_named, sp_ctype, sp_lang, sp_cseq, sp_payload, spec_parse_header, sp_other,
    spec_parse_header_or_other,
};
use crate::write::{
    ser_methods_s, ser_words_s, ser_params_s, ser_named_s, spec_serialize,
};

verus! {

/// Pointwise reading of a subrange equality: every byte of `line` in the
/// window starting at `a` is the corresponding byte of `x`.
proof fn lemma_seq_at(line: Seq<u8>, a: int, x: Seq<u8>)
    requires
        0 <= a,
        a + x.len() as int <= line.len(),
        line.subrange(a, a + x.len() as int) == x,
    ensures
        forall|j: int| a <= j < a + x.len() as int ==> line[j] == x[j - a],
{
    assert forall|j: int| a <= j < a + x.len() as int implies line[j] == x[j - a] by {
        assert(line.subrange(a, a + x.len() as int)[j - a] == x[j - a]);
    }
}

/// Splitting a subrange equality along a concatenation.
proof fn lemma_split_at(line: Seq<u8>, a: int, x: Seq<u8>, y: Seq<u8>)
    requires
        0 <= a,
        a + x.len() as int + y.len() as int <= line.len(),
        line.subrange(a, a + x.len() as int + y.len() as int) == x + y,
    ensures
        line.subrange(a, a + x.len() as int) == x,
        line.subrange(a + x.len() as int, a + x.len() as int + y.len() as int) == y,
{
    let w = x + y;
    lemma_seq_at(line, a, w);
    assert(line.subrange(a, a + x.len() as int) =~= x);
    assert(line.subrange(a + x.len() as int, a + w.len() as int) =~= y);
}

/// A serialized line `tag ":" " " payload` passes the dispatcher's three
/// leading stages exactly: the maximal tag run is the tag itself, the colon
/// stands directly behind it, and exactly one space is skipped before the
/// payload.
proof fn lemma_stages(t: Seq<u8>, pay: Seq<u8>)
    requires
        tag_wf(t),
        pay.len() > 0,
        !is_space_b(pay[0]),
    ensures
        run_end(t + colon_space() + pay, 0, |b: u8| is_tag_b(b)) == t.len(),
        run_end(t + colon_space() + pay, t.len() as int, |b: u8| is_space_b(b)) == t.len(),
        (t + colon_space() + pay)[t.len() as int] == 58,
        run_end(t + colon_space() + pay, t.len() as int + 1, |b: u8| is_space_b(b)) == t.len()
            + 2,
        (t + colon_space() + pay).subrange(0, t.len() as int) == t,
        (t + colon_space() + pay).len() == t.len() + 2 + pay.len(),
        (t + colon_space() + pay).subrange(
            t.len() as int + 2,
            (t + colon_space() + pay).len() as int,
        ) == pay,
{
    let line = t + colon_space() + pay;
    let tl = t.len() as int;
    assert(line.len() == t.len() + 2 + pay.len());
    assert(forall|j: int| 0 <= j < tl ==> line[j] == t[j]);
    assert(line[tl] == 58);
    assert(line[tl + 1] == 32);
    assert(line[tl + 2] == pay[0]);
    lemma_run_end_is(line, 0, tl, |b: u8| is_tag_b(b));
    lemma_run_end_is(line, tl, tl, |b: u8| is_space_b(b));
    lemma_run_end_is(line, tl + 1, tl + 2, |b: u8| is_space_b(b));
    assert(line.subrange(0, tl) =~= t);
    assert(line.subrange(tl + 2, line.len() as int) =~= pay);
}

/// The canonical digit string of `n`, written at `p` and followed by a
/// non-digit, reads back as exactly `n`.
proof fn lemma_digits_at(line: Seq<u8>, p: int, n: u32)
    requires
        0 <= p,
        (p + spec_digits(n as int).len() as int) < line.len(),
        line.subrange(p, p + spec_digits(n as int).len() as int) == spec_digits(n as int),
        !is_digit_b(line[p + spec_digits(n as int).len() as int]),
    ensures
        sp_u32(line, p) == Ok::<(u32, int), SipError>(
            (n, p + spec_digits(n as int).len() as int),
        ),
{
    let d = spec_digits(n as int);
    lemma_digits(n as int);
    lemma_seq_at(line, p, d);
    assert(forall|j: int| p <= j < p + d.len() as int ==> is_digit_b(#[trigger] line[j]));
    lemma_run_end_is(line, p, p + d.len() as int, |b: u8| is_digit_b(b));
    assert(digits_val(line.subrange(p, p + d.len() as int)) == n);
}

/// Free text written at `p` and closed by the line terminator at the end of
/// the line reads back verbatim.
proof fn lemma_text_at(line: Seq<u8>, p: int, v: Seq<u8>)
    requires
        0 <= p,
        text_wf(v),
        line.len() == p + v.len() as int + 2,
        line.subrange(p, p + v.len() as int) == v,
        line[p + v.len() as int] == 13,
        line[p + v.len() as int + 1] == 10,
    ensures
        sp_text(line, p) == Ok::<(Seq<u8>, int), SipError>((v, line.len() as int)),
{
    lemma_seq_at(line, p, v);
    assert(forall|j: int| p <= j < p + v.len() as int ==> is_text_b(#[trigger] line[j]));
    lemma_run_end_is(line, p, p + v.len() as int, |b: u8| is_text_b(b));
}

/// A serialized method list written at `p` and followed by a carriage return
/// reads back as the same list, consuming exactly its own text.
proof fn lemma_methods_at(line: Seq<u8>, p: int, ms: Seq<Method>)
    requires
        0 <= p,
        ms.len() >= 1,
        (p + ser_methods_s(ms).len() as int) < line.len(),
        line.subrange(p, p + ser_methods_s(ms).len() as int) == ser_methods_s(ms),
        line[p + ser_methods_s(ms).len() as int] == 13,
    ensures
        sp_method_list(line, p) == Ok::<(Seq<Method>, int), SipError>(
            (ms, p + ser_methods_s(ms).len() as int),
        ),
    decreases ms.len(),
{
    let ser = ser_methods_s(ms);
    let tok = method_tok(ms[0]);
    lemma_method_tok(ms[0]);
    if ms.len() == 1 {
        assert(ser == tok);
        lemma_seq_at(line, p, tok);
        assert(forall|j: int| p <= j < p + tok.len() as int ==> is_alpha_b(#[trigger] line[j]));
        lemma_run_end_is(line, p, p + tok.len() as int, |b: u8| is_alpha_b(b));
        assert(method_of_token(line.subrange(p, p + tok.len() as int)) == Some(ms[0]));
        assert(seq![ms[0]] =~= ms);
    } else {
        let rest = ser_methods_s(ms.drop_first());
        assert(ser == tok + seq![44u8] + rest);
        assert(line.subrange(p, p + ser.len() as int) == tok + (seq![44u8] + rest)) by {
            assert(tok + (seq![44u8] + rest) =~= ser);
        }
        lemma_split_at(line, p, tok, seq![44u8] + rest);
        let e = p + tok.len() as int;
        lemma_split_at(line, e, seq![44u8], rest);
        lemma_seq_at(line, p, tok);
        lemma_seq_at(line, e, seq![44u8]);
        lemma_seq_at(line, e + 1, rest);
        assert(forall|j: int| p <= j < e ==> is_alpha_b(#[trigger] line[j]));
        assert(line[e] == 44);
        lemma_run_end_is(line, p, e, |b: u8| is_alpha_b(b));
        assert(method_of_token(line.subrange(p, e)) == Some(ms[0]));
        lemma_method_tok(ms.drop_first()[0]);
        assert(rest[0] == method_tok(ms.drop_first()[0])[0]);
        assert(line[e + 1] == rest[0]);
        assert(line[e + 1] != 32);
        let q = e + 1;
        assert(q + rest.len() as int == p + ser.len() as int);
        lemma_methods_at(line, q, ms.drop_first());
        assert(seq![ms[0]] + ms.drop_first() =~= ms);
    }
}

/// A serialized word list written at `p` and followed by a carriage return
/// reads back as the same list.
proof fn lemma_words_at(line: Seq<u8>, p: int, ws: Seq<Seq<u8>>)
    requires
        0 <= p,
        ws.len() >= 1,
        forall|i: int| 0 <= i < ws.len() ==> word_wf(#[trigger] ws[i]),
        (p + ser_words_s(ws).len() as int) < line.len(),
        line.subrange(p, p + ser_words_s(ws).len() as int) == ser_words_s(ws),
        line[p + ser_words_s(ws).len() as int] == 13,
    ensures
        sp_word_list(line, p) == Ok::<(Seq<Seq<u8>>, int), SipError>(
            (ws, p + ser_words_s(ws).len() as int),
        ),
    decreases ws.len(),
{
    let ser = ser_words_s(ws);
    let tok = ws[0];
    assert(word_wf(tok));
    if ws.len() == 1 {
        assert(ser == tok);
        lemma_seq_at(line, p, tok);
        assert(forall|j: int| p <= j < p + tok.len() as int ==> is_alpha_b(#[trigger] line[j]));
        lemma_run_end_is(line, p, p + tok.len() as int, |b: u8| is_alpha_b(b));
        assert(line.subrange(p, p + tok.len() as int) == tok);
        assert(seq![ws[0]] =~= ws);
    } else {
        let rest = ser_words_s(ws.drop_first());
        assert(ser == tok + seq![44u8] + rest);
        assert(line.subrange(p, p + ser.len() as int) == tok + (seq![44u8] + rest)) by {
            assert(tok + (seq![44u8] + rest) =~= ser);
        }
        lemma_split_at(line, p, tok, seq![44u8] + rest);
        let e = p + tok.len() as int;
        lemma_split_at(line, e, seq![44u8], rest);
        lemma_seq_at(line, p, tok);
        lemma_seq_at(line, e, seq![44u8]);
        lemma_seq_at(line, e + 1, rest);
        assert(forall|j: int| p <= j < e ==> is_alpha_b(#[trigger] line[j]));
        assert(line[e] == 44);
        lemma_run_end_is(line, p, e, |b: u8| is_alpha_b(b));
        assert(line.subrange(p, e) == tok);
        assert(word_wf(ws.drop_first()[0]));
        assert(rest[0] == ws.drop_first()[0][0]);
        assert(line[e + 1] == rest[0]);
        assert(line[e + 1] != 32);
        let q = e + 1;
        assert(q + rest.len() as int == p + ser.len() as int);
        lemma_words_at(line, q, ws.drop_first());
        assert(seq![ws[0]] + ws.drop_first() =~= ws);
    }
}

/// A serialized parameter list written at `p` and followed by a carriage
/// return is consumed group by group; with keys disjoint from the
/// accumulator and pairwise distinct, every insertion appends, so the scan
/// ends with the accumulator extended by exactly the serialized entries.
proof fn lemma_params_at(
    line: Seq<u8>,
    p: int,
    ps: Seq<(Seq<u8>, Seq<u8>)>,
    acc: Seq<(Seq<u8>, Seq<u8>)>,
)
    requires
        0 <= p,
        params_wf(ps),
        (p + ser_params_s(ps).len() as int) < line.len(),
        line.subrange(p, p + ser_params_s(ps).len() as int) == ser_params_s(ps),
        line[p + ser_params_s(ps).len() as int] == 13,
        forall|i: int, j: int|
            0 <= i < acc.len() && 0 <= j < ps.len() ==> (#[trigger] acc[i]).0 != (
            #[trigger] ps[j]).0,
    ensures
        sp_params(line, p, acc) == (acc + ps, p + ser_params_s(ps).len() as int),
    decreases ps.len(),
{
    let ser = ser_params_s(ps);
    if ps.len() == 0 {
        assert(line[p] == 13);
        assert(acc + ps =~= acc);
    } else {
        let k0 = ps[0].0;
        let v0 = ps[0].1;
        let rest = ser_params_s(ps.drop_first());
        assert(ser == seq![59u8] + k0 + seq![61u8] + v0 + rest);
        assert(line.subrange(p, p + ser.len() as int) == seq![59u8] + (k0 + (seq![61u8] + (v0
            + rest)))) by {
            assert(seq![59u8] + (k0 + (seq![61u8] + (v0 + rest))) =~= ser);
        }
        lemma_split_at(line, p, seq![59u8], k0 + (seq![61u8] + (v0 + rest)));
        lemma_split_at(line, p + 1, k0, seq![61u8] + (v0 + rest));
        let ke = p + 1 + k0.len() as int;
        lemma_split_at(line, ke, seq![61u8], v0 + rest);
        lemma_split_at(line, ke + 1, v0, rest);
        let ve = ke + 1 + v0.len() as int;
        lemma_seq_at(line, p, seq![59u8]);
        lemma_seq_at(line, p + 1, k0);
        lemma_seq_at(line, ke, seq![61u8]);
        lemma_seq_at(line, ke + 1, v0);
        lemma_seq_at(line, ve, rest);
        assert(line[p] == 59);
        assert forall|j: int| p + 1 <= j < ke implies is_alpha_b(#[trigger] line[j]) by {
            assert(line[j] == ps[0].0[j - (p + 1)]);
        }
        assert(line[ke] == 61);
        assert(!is_alpha_b(61));
        lemma_run_end_is(line, p + 1, ke, |b: u8| is_alpha_b(b));
        assert forall|j: int| ke + 1 <= j < ve implies is_alnum_b(#[trigger] line[j]) by {
            assert(line[j] == ps[0].1[j - (ke + 1)]);
        }
        if ps.len() > 1 {
            let k1 = ps.drop_first()[0].0;
            let v1 = ps.drop_first()[0].1;
            assert(rest == seq![59u8] + k1 + seq![61u8] + v1 + ser_params_s(
                ps.drop_first().drop_first(),
            ));
            assert(rest[0] == 59);
            assert(line[ve] == 59);
        } else {
            assert(rest.len() == 0);
            assert(ve == p + ser.len() as int);
            assert(line[ve] == 13);
        }
        assert(!is_alnum_b(line[ve]));
        lemma_run_end_is(line, ke + 1, ve, |b: u8| is_alnum_b(b));
        assert(line.subrange(p + 1, ke) == k0);
        assert(line.subrange(ke + 1, ve) == v0);
        lemma_find_key(acc, k0);
        assert(find_key(acc, k0) == -1);
        let acc2 = acc.push((k0, v0));
        assert(params_insert(acc, k0, v0) == acc2);
        assert(forall|i: int|
            0 <= i < ps.drop_first().len() ==> (#[trigger] ps.drop_first()[i]) == ps[i + 1]);
        assert(params_wf(ps.drop_first()));
        assert forall|i: int, j: int|
            0 <= i < acc2.len() && 0 <= j < ps.drop_first().len() implies (#[trigger] acc2[i]).0
            != (#[trigger] ps.drop_first()[j]).0 by {
            assert(ps.drop_first()[j] == ps[j + 1]);
            if i < acc.len() {
                assert(acc2[i] == acc[i]);
            } else {
                assert(acc2[i] == (k0, v0));
                assert(ps[0].0 != ps[j + 1].0);
            }
        }
        assert(ve + rest.len() as int == p + ser.len() as int);
        lemma_params_at(line, ve, ps.drop_first(), acc2);
        assert(acc2 + ps.drop_first() =~= acc + ps);
    }
}

/// A serialized named-address payload written at `p`, closing the line,
/// reads back as the same value.
proof fn lemma_named_at(line: Seq<u8>, p: int, nv: NamedV)
    requires
        0 <= p,
        named_wf(nv),
        line.len() == p + ser_named_s(nv).len() as int + 2,
        line.subrange(p, line.len() as int) == ser_named_s(nv) + crlf(),
    ensures
        sp_named(line, p) == Ok::<(NamedV, int), SipError>((nv, line.len() as int)),
{
    let ser = ser_named_s(nv);
    let psr = ser_params_s(nv.params);
    assert(line.subrange(p, p + ser.len() as int + 2) == ser + crlf());
    lemma_split_at(line, p, ser, crlf());
    lemma_seq_at(line, p + ser.len() as int, crlf());
    let pe = p + ser.len() as int;
    assert(line[pe] == 13);
    assert(line[pe + 1] == 10);
    let p1: int = match nv.name {
        Some(n) => p + n.len() as int + 3,
        None => p,
    };
    match nv.name {
        Some(n) => {
            assert(ser == (seq![34u8] + n + seq![34u8, 32u8]) + seq![60u8] + nv.uri + seq![62u8]
                + psr);
            assert(line.subrange(p, p + ser.len() as int) == seq![34u8] + (n + (seq![
                34u8,
                32u8,
            ] + (seq![60u8] + (nv.uri + (seq![62u8] + psr)))))) by {
                assert(seq![34u8] + (n + (seq![34u8, 32u8] + (seq![60u8] + (nv.uri + (seq![62u8]
                    + psr))))) =~= ser);
            }
            lemma_split_at(line, p, seq![34u8], n + (seq![34u8, 32u8] + (seq![60u8] + (nv.uri
                + (seq![62u8] + psr)))));
            lemma_split_at(line, p + 1, n, seq![34u8, 32u8] + (seq![60u8] + (nv.uri + (seq![62u8]
                + psr))));
            lemma_split_at(line, p + 1 + n.len() as int, seq![34u8, 32u8], seq![60u8] + (nv.uri
                + (seq![62u8] + psr)));
            lemma_split_at(line, p1, seq![60u8], nv.uri + (seq![62u8] + psr));
            lemma_split_at(line, p1 + 1, nv.uri, seq![62u8] + psr);
            lemma_split_at(line, p1 + 1 + nv.uri.len() as int, seq![62u8], psr);
            lemma_seq_at(line, p, seq![34u8]);
            lemma_seq_at(line, p + 1, n);
            lemma_seq_at(line, p + 1 + n.len() as int, seq![34u8, 32u8]);
            lemma_seq_at(line, p1, seq![60u8]);
            lemma_seq_at(line, p1 + 1, nv.uri);
            lemma_seq_at(line, p1 + 1 + nv.uri.len() as int, seq![62u8]);
            assert(line[p] == 34);
            assert forall|j: int| p + 1 <= j < p + 1 + n.len() as int implies is_name_b(
                #[trigger] line[j],
            ) by {
                assert(line[j] == n[j - (p + 1)]);
            }
            assert(line[p + 1 + n.len() as int] == 34);
            assert(!is_name_b(34));
            lemma_run_end_is(line, p + 1, p + 1 + n.len() as int, |b: u8| is_name_b(b));
            assert(line.subrange(p + 1, p + 1 + n.len() as int) == n);
            assert(sp_display(line, p) == (Some(n), p1 - 1));
            assert(line[p1 - 1] == 32);
            assert(line[p1] == 60);
            lemma_run_end_is(line, p1 - 1, p1, |b: u8| is_space_b(b));
            assert(run_end(line, p1 - 1, |b: u8| is_space_b(b)) == p1);
        },
        None => {
            assert(ser == seq![60u8] + nv.uri + seq![62u8] + psr);
            assert(line.subrange(p, p + ser.len() as int) == seq![60u8] + (nv.uri + (seq![62u8]
                + psr))) by {
                assert(seq![60u8] + (nv.uri + (seq![62u8] + psr)) =~= ser);
            }
            lemma_split_at(line, p, seq![60u8], nv.uri + (seq![62u8] + psr));
            lemma_split_at(line, p + 1, nv.uri, seq![62u8] + psr);
            lemma_split_at(line, p + 1 + nv.uri.len() as int, seq![62u8], psr);
            lemma_seq_at(line, p, seq![60u8]);
            lemma_seq_at(line, p + 1, nv.uri);
            lemma_seq_at(line, p + 1 + nv.uri.len() as int, seq![62u8]);
            assert(line[p] == 60);
            lemma_run_end_is(line, p, p, |b: u8| is_alpha_b(b));
            assert(sp_display(line, p) == (None::<Seq<u8>>, p));
            lemma_run_end_is(line, p, p, |b: u8| is_space_b(b));
        },
    }
    let p2: int = match nv.name {
        Some(n) => p1 + 1,
        None => p + 1,
    };
    // p2 is the first byte of the URI; the angle bracket stands at p2 - 1.
    assert(line[p2 - 1] == 60);
    let ue = p2 + nv.uri.len() as int;
    assert forall|j: int| p2 <= j < ue implies is_uri_b(#[trigger] line[j]) by {
        assert(line[j] == nv.uri[j - p2]);
    }
    assert(line[ue] == 62);
    assert(!is_uri_b(62));
    lemma_run_end_is(line, p2, ue, |b: u8| is_uri_b(b));
    assert(line.subrange(p2, ue) == nv.uri);
    let pp = ue + 1;
    lemma_seq_at(line, pp, psr);
    assert(line.subrange(pp, pp + psr.len() as int) =~= psr);
    assert(pp + psr.len() as int == pe);
    assert(line[pp + psr.len() as int] == 13);
    lemma_params_at(line, pp, nv.params, Seq::empty());
    assert(Seq::<(Seq<u8>, Seq<u8>)>::empty() + nv.params =~= nv.params);
    assert(sp_crlf(line, pe) == Ok::<int, SipError>(line.len() as int));
}

/// Round trip of one serialized `Num`-shaped header line.
#[verifier::rlimit(100)]
proof fn lemma_rt_num(t: Seq<u8>, n: u32)
    requires
        tag_shape_is(t, Shape::Num),
    ensures
        spec_parse_header(spec_serialize(HeaderV::Num(t, n)) + crlf()) == Ok::<(HeaderV, int), SipError>(
            (HeaderV::Num(t, n), spec_serialize(HeaderV::Num(t, n)).len() as int + 2),
        ),
{
    lemma_tags_wf();
    let hv = HeaderV::Num(t, n);
    let line = spec_serialize(hv) + crlf();
    let k = kind_of_tag(t)->Some_0;
    assert(t == spec_tag(k));
    let d = spec_digits(n as int);
    lemma_digits(n as int);
    let pay = d + crlf();
    assert(line =~= t + colon_space() + pay);
    lemma_stages(t, pay);
    let p2 = t.len() as int + 2;
    assert(line.subrange(p2, p2 + pay.len() as int) == pay);
    lemma_split_at(line, p2, d, crlf());
    lemma_seq_at(line, p2 + d.len() as int, crlf());
    assert(!is_digit_b(13));
    lemma_digits_at(line, p2, n);
    assert(p2 + d.len() as int + 2 == line.len());
}

/// Round trip of one serialized `Dec`-shaped header line.
#[verifier::rlimit(100)]
proof fn lemma_rt_dec(t: Seq<u8>, d: Seq<u8>)
    requires
        tag_shape_is(t, Shape::Dec),
        dec_wf(d),
    ensures
        spec_parse_header(spec_serialize(HeaderV::Dec(t, d)) + crlf()) == Ok::<(HeaderV, int), SipError>(
            (HeaderV::Dec(t, d), spec_serialize(HeaderV::Dec(t, d)).len() as int + 2),
        ),
{
    lemma_tags_wf();
    let hv = HeaderV::Dec(t, d);
    let line = spec_serialize(hv) + crlf();
    let k = kind_of_tag(t)->Some_0;
    assert(t == spec_tag(k));
    let pay = d + crlf();
    assert(!is_space_b(d[0]));
    assert(line =~= t + colon_space() + pay);
    lemma_stages(t, pay);
    let p2 = t.len() as int + 2;
    assert(line.subrange(p2, p2 + pay.len() as int) == pay);
    lemma_split_at(line, p2, d, crlf());
    lemma_seq_at(line, p2, d);
    lemma_seq_at(line, p2 + d.len() as int, crlf());
    assert forall|j: int| p2 <= j < p2 + d.len() as int implies is_dec_b(
        #[trigger] line[j],
    ) by {
        assert(line[j] == d[j - p2]);
    }
    assert(line[p2 + d.len() as int] == 13);
    assert(!is_dec_b(13));
    lemma_run_end_is(line, p2, p2 + d.len() as int, |b: u8| is_dec_b(b));
    assert(line.subrange(p2, p2 + d.len() as int) == d);
    assert(p2 + d.len() as int + 2 == line.len());
}

/// Round trip of one serialized `Text`-shaped header line.
#[verifier::rlimit(100)]
proof fn lemma_rt_text(t: Seq<u8>, v: Seq<u8>)
    requires
        tag_shape_is(t, Shape::Text),
        text_wf(v),
    ensures
        spec_parse_header(spec_serialize(HeaderV::Text(t, v)) + crlf()) == Ok::<(HeaderV, int), SipError>(
            (HeaderV::Text(t, v), spec_serialize(HeaderV::Text(t, v)).len() as int + 2),
        ),
{
    lemma_tags_wf();
    let hv = HeaderV::Text(t, v);
    let line = spec_serialize(hv) + crlf();
    let k = kind_of_tag(t)->Some_0;
    assert(t == spec_tag(k));
    let pay = v + crlf();
    assert(pay[0] == (if v.len() > 0 {
        v[0]
    } else {
        13u8
    }));
    assert(line =~= t + colon_space() + pay);
    lemma_stages(t, pay);
    let p2 = t.len() as int + 2;
    assert(line.subrange(p2, p2 + pay.len() as int) == pay);
    lemma_split_at(line, p2, v, crlf());
    lemma_seq_at(line, p2 + v.len() as int, crlf());
    lemma_text_at(line, p2, v);
}

/// Round trip of one serialized `Methods`-shaped header line.
#[verifier::rlimit(100)]
proof fn lemma_rt_methods(t: Seq<u8>, ms: Seq<Method>)
    requires
        tag_shape_is(t, Shape::Methods),
        ms.len() >= 1,
    ensures
        spec_parse_header(spec_serialize(HeaderV::Methods(t, ms)) + crlf()) == Ok::<(HeaderV, int), SipError>(
            (HeaderV::Methods(t, ms), spec_serialize(HeaderV::Methods(t, ms)).len() as int + 2),
        ),
{
    lemma_tags_wf();
    let hv = HeaderV::Methods(t, ms);
    let line = spec_serialize(hv) + crlf();
    let k = kind_of_tag(t)->Some_0;
    assert(t == spec_tag(k));
    let ser = ser_methods_s(ms);
    lemma_method_tok(ms[0]);
    assert(ser[0] == method_tok(ms[0])[0]);
    assert(!is_space_b(ser[0]));
    let pay = ser + crlf();
    assert(line =~= t + colon_space() + pay);
    lemma_stages(t, pay);
    let p2 = t.len() as int + 2;
    assert(line.subrange(p2, p2 + pay.len() as int) == pay);
    lemma_split_at(line, p2, ser, crlf());
    lemma_seq_at(line, p2 + ser.len() as int, crlf());
    lemma_methods_at(line, p2, ms);
    assert(p2 + ser.len() as int + 2 == line.len());
}

/// Round trip of one serialized `Words`-shaped header line.
#[verifier::rlimit(100)]
proof fn lemma_rt_words(t: Seq<u8>, ws: Seq<Seq<u8>>)
    requires
        tag_shape_is(t, Shape::Words),
        ws.len() >= 1,
        forall|i: int| 0 <= i < ws.len() ==> word_wf(#[trigger] ws[i]),
    ensures
        spec_parse_header(spec_serialize(HeaderV::Words(t, ws)) + crlf()) == Ok::<(HeaderV, int), SipError>(
            (HeaderV::Words(t, ws), spec_serialize(HeaderV::Words(t, ws)).len() as int + 2),
        ),
{
    lemma_tags_wf();
    let hv = HeaderV::Words(t, ws);
    let line = spec_serialize(hv) + crlf();
    let k = kind_of_tag(t)->Some_0;
    assert(t == spec_tag(k));
    let ser = ser_words_s(ws);
    assert(word_wf(ws[0]));
    assert(ser[0] == ws[0][0]);
    assert(!is_space_b(ser[0]));
    let pay = ser + crlf();
    assert(line =~= t + colon_space() + pay);
    lemma_stages(t, pay);
    let p2 = t.len() as int + 2;
    assert(line.subrange(p2, p2 + pay.len() as int) == pay);
    lemma_split_at(line, p2, ser, crlf());
    lemma_seq_at(line, p2 + ser.len() as int, crlf());
    lemma_words_at(line, p2, ws);
    assert(p2 + ser.len() as int + 2 == line.len());
}

/// Round trip of one serialized `Named`-shaped header line.
#[verifier::rlimit(100)]
proof fn lemma_rt_named(t: Seq<u8>, nv: NamedV)
    requires
        tag_shape_is(t, Shape::Named),
        named_wf(nv),
    ensures
        spec_parse_header(spec_serialize(HeaderV::Named(t, nv)) + crlf()) == Ok::<(HeaderV, int), SipError>(
            (HeaderV::Named(t, nv), spec_serialize(HeaderV::Named(t, nv)).len() as int + 2),
        ),
{
    lemma_tags_wf();
    let hv = HeaderV::Named(t, nv);
    let line = spec_serialize(hv) + crlf();
    let k = kind_of_tag(t)->Some_0;
    assert(t == spec_tag(k));
    let ser = ser_named_s(nv);
    assert(ser[0] == (match nv.name {
        Some(n) => 34u8,
        None => 60u8,
    }));
    assert(!is_space_b(ser[0]));
    let pay = ser + crlf();
    assert(line =~= t + colon_space() + pay);
    lemma_stages(t, pay);
    let p2 = t.len() as int + 2;
    assert(line.subrange(p2, line.len() as int) == ser + crlf());
    assert(line.len() == p2 + ser.len() as int + 2);
    lemma_named_at(line, p2, nv);
}

/// Round trip of one serialized `CType`-shaped header line.
#[verifier::rlimit(100)]
proof fn lemma_rt_ctype(t: Seq<u8>, c: ContentType)
    requires
        tag_shape_is(t, Shape::CType),
    ensures
        spec_parse_header(spec_serialize(HeaderV::CType(t, c)) + crlf()) == Ok::<(HeaderV, int), SipError>(
            (HeaderV::CType(t, c), spec_serialize(HeaderV::CType(t, c)).len() as int + 2),
        ),
{
    lemma_tags_wf();
    let hv = HeaderV::CType(t, c);
    let line = spec_serialize(hv) + crlf();
    let k = kind_of_tag(t)->Some_0;
    assert(t == spec_tag(k));
    let tok = ctype_tok(c);
    assert(!is_space_b(tok[0]));
    let pay = tok + crlf();
    assert(line =~= t + colon_space() + pay);
    lemma_stages(t, pay);
    let p2 = t.len() as int + 2;
    assert(line.subrange(p2, p2 + pay.len() as int) == pay);
    lemma_split_at(line, p2, tok, crlf());
    lemma_seq_at(line, p2, tok);
    lemma_seq_at(line, p2 + tok.len() as int, crlf());
    if c is PlainText {
        assert(ctype_tok(ContentType::Sdp)[0] == 97);
        assert(tok[0] == 116);
        assert(line[p2] == 116);
        if crate::scan::has_at(line, p2, ctype_tok(ContentType::Sdp)) {
            assert(line.subrange(p2, p2 + 15)[0] == line[p2]);
            assert(false);
        }
    }
    assert(crate::scan::has_at(line, p2, tok));
    assert(p2 + tok.len() as int + 2 == line.len());
}

/// Round trip of one serialized `Lang`-shaped header line.
#[verifier::rlimit(100)]
proof fn lemma_rt_lang(t: Seq<u8>, l: Language)
    requires
        tag_shape_is(t, Shape::Lang),
    ensures
        spec_parse_header(spec_serialize(HeaderV::Lang(t, l)) + crlf()) == Ok::<(HeaderV, int), SipError>(
            (HeaderV::Lang(t, l), spec_serialize(HeaderV::Lang(t, l)).len() as int + 2),
        ),
{
    lemma_tags_wf();
    let hv = HeaderV::Lang(t, l);
    let line = spec_serialize(hv) + crlf();
    let k = kind_of_tag(t)->Some_0;
    assert(t == spec_tag(k));
    let tok = lang_tok(l);
    assert(!is_space_b(tok[0]));
    let pay = tok + crlf();
    assert(line =~= t + colon_space() + pay);
    lemma_stages(t, pay);
    let p2 = t.len() as int + 2;
    assert(line.subrange(p2, p2 + pay.len() as int) == pay);
    lemma_split_at(line, p2, tok, crlf());
    lemma_seq_at(line, p2, tok);
    lemma_seq_at(line, p2 + tok.len() as int, crlf());
    assert(crate::scan::has_at(line, p2, tok));
    assert(p2 + tok.len() as int + 2 == line.len());
}

/// Round trip of one serialized `CSeqV`-shaped header line.
#[verifier::rlimit(100)]
proof fn lemma_rt_cseqv(n: u32, m: Method)
    requires
        true,
    ensures
        spec_parse_header(spec_serialize(HeaderV::CSeqV(n, m)) + crlf()) == Ok::<(HeaderV, int), SipError>(
            (HeaderV::CSeqV(n, m), spec_serialize(HeaderV::CSeqV(n, m)).len() as int + 2),
        ),
{
    lemma_tags_wf();
    let hv = HeaderV::CSeqV(n, m);
    let line = spec_serialize(hv) + crlf();
    let t = spec_tag(HeaderKind::CSeq);
    lemma_kind_of_self(HeaderKind::CSeq);
    let d = spec_digits(n as int);
    lemma_digits(n as int);
    let tok = method_tok(m);
    lemma_method_tok(m);
    let pay = d + seq![32u8] + tok + crlf();
    assert(!is_space_b(d[0]));
    assert(line =~= t + colon_space() + pay);
    lemma_stages(t, pay);
    let p2 = t.len() as int + 2;
    assert(line.subrange(p2, p2 + pay.len() as int) == pay);
    assert(line.subrange(p2, p2 + pay.len() as int) == d + (seq![32u8] + (tok
        + crlf()))) by {
        assert(d + (seq![32u8] + (tok + crlf())) =~= pay);
    }
    lemma_split_at(line, p2, d, seq![32u8] + (tok + crlf()));
    let e = p2 + d.len() as int;
    lemma_split_at(line, e, seq![32u8], tok + crlf());
    lemma_split_at(line, e + 1, tok, crlf());
    lemma_seq_at(line, e, seq![32u8]);
    lemma_seq_at(line, e + 1, tok);
    lemma_seq_at(line, e + 1 + tok.len() as int, crlf());
    assert(line[e] == 32);
    assert(!is_digit_b(32));
    lemma_digits_at(line, p2, n);
    assert(line[e + 1] == tok[0]);
    assert(is_alpha_b(tok[0]));
    lemma_run_end_is(line, e, e + 1, |b: u8| is_space_b(b));
    let e2 = e + 1 + tok.len() as int;
    assert forall|j: int| e + 1 <= j < e2 implies is_alpha_b(#[trigger] line[j]) by {
        assert(line[j] == tok[j - (e + 1)]);
    }
    assert(line[e2] == 13);
    assert(!is_alpha_b(13));
    lemma_run_end_is(line, e + 1, e2, |b: u8| is_alpha_b(b));
    assert(line.subrange(e + 1, e2) == tok);
    assert(method_of_token(line.subrange(e + 1, e2)) == Some(m));
    assert(line[e2 + 1] == 10);
    assert(e2 + 2 == line.len());
}

/// The round-trip law of the recognized headers: serializing any well-formed
/// header value other than `Other` and parsing the emitted line, terminator
/// appended, yields exactly that value, consuming the whole line.
pub proof fn lemma_round_trip(hv: HeaderV)
    requires
        hv_wf(hv),
        !(hv is Other),
    ensures
        spec_parse_header(spec_serialize(hv) + crlf()) == Ok::<(HeaderV, int), SipError>(
            (hv, spec_serialize(hv).len() as int + 2),
        ),
{
    match hv {
        HeaderV::Num(t, n) => lemma_rt_num(t, n),
        HeaderV::Dec(t, d) => lemma_rt_dec(t, d),
        HeaderV::Text(t, v) => lemma_rt_text(t, v),
        HeaderV::Methods(t, ms) => lemma_rt_methods(t, ms),
        HeaderV::Words(t, ws) => lemma_rt_words(t, ws),
        HeaderV::Named(t, nv) => lemma_rt_named(t, nv),
        HeaderV::CType(t, c) => lemma_rt_ctype(t, c),
        HeaderV::Lang(t, l) => lemma_rt_lang(t, l),
        HeaderV::CSeqV(n, m) => lemma_rt_cseqv(n, m),
        HeaderV::Other(_, _) => {
            assert(false);
        },
    }
}

/// The round-trip law of the unrecognized headers: serializing a well-formed
/// `Other(name, value)` and parsing the line through the permissive
/// dispatcher yields the pair back verbatim; the strict dispatcher refuses
/// the same line with `NoMatchingHeader`.
pub proof fn lemma_round_trip_other(name: Seq<u8>, v: Seq<u8>)
    requires
        other_wf(name, v),
    ensures
        spec_parse_header(spec_serialize(HeaderV::Other(name, v)) + crlf()) == Err::<
            (HeaderV, int),
            SipError,
        >(SipError::NoMatchingHeader),
        spec_parse_header_or_other(spec_serialize(HeaderV::Other(name, v)) + crlf()) == Ok::<
            (HeaderV, int),
            SipError,
        >((HeaderV::Other(name, v), spec_serialize(HeaderV::Other(name, v)).len() as int + 2)),
{
    let line = spec_serialize(HeaderV::Other(name, v)) + crlf();
    let pay = v + crlf();
    assert(pay[0] == (if v.len() > 0 {
        v[0]
    } else {
        13u8
    }));
    assert(line =~= name + colon_space() + pay);
    lemma_stages(name, pay);
    let p2 = name.len() as int + 2;
    assert(line.subrange(0, name.len() as int) == name);
    assert(line.subrange(p2, p2 + pay.len() as int) == pay);
    lemma_split_at(line, p2, v, crlf());
    lemma_seq_at(line, p2 + v.len() as int, crlf());
    lemma_text_at(line, p2, v);
}

/// Every header built through the model's own constructors carries a
/// recognized tag of its own shape (`Other` aside): the tag side of `hv_wf`
/// holds of every `Header` value by construction, leaving only the payload
/// conditions to the caller.
pub proof fn lemma_header_tag_wf(h: Header)
    ensures
        match h@ {
            HeaderV::Num(t, _) => tag_shape_is(t, Shape::Num),
            HeaderV::Dec(t, _) => tag_shape_is(t, Shape::Dec),
            HeaderV::Text(t, _) => tag_shape_is(t, Shape::Text),
            HeaderV::Methods(t, _) => tag_shape_is(t, Shape::Methods),
            HeaderV::Words(t, _) => tag_shape_is(t, Shape::Words),
            HeaderV::Named(t, _) => tag_shape_is(t, Shape::Named),
            HeaderV::CType(t, _) => tag_shape_is(t, Shape::CType),
            HeaderV::Lang(t, _) => tag_shape_is(t, Shape::Lang),
            HeaderV::CSeqV(_, _) => true,
            HeaderV::Other(_, _) => true,
        },
{
    match h {
        Header::CSeq(_, _) => {},
        Header::Other(_, _) => {},
        Header::AcceptEncoding(_) => lemma_kind_of_self(HeaderKind::AcceptEncoding),
        Header::Accept(_) => lemma_kind_of_self(HeaderKind::Accept),
        Header::AcceptLanguage(_) => lemma_kind_of_self(HeaderKind::AcceptLanguage),
        Header::AlertInfo(_) => lemma_kind_of_self(HeaderKind::AlertInfo),
        Header::Allow(_) => lemma_kind_of_self(HeaderKind::Allow),
        Header::AuthenticationInfo(_) => lemma_kind_of_self(HeaderKind::AuthenticationInfo),
        Header::Authorization(_) => lemma_kind_of_self(HeaderKind::Authorization),
        Header::CallInfo(_) => lemma_kind_of_self(HeaderKind::CallInfo),
        Header::CallId(_) => lemma_kind_of_self(HeaderKind::CallId),
        Header::Contact(_) => lemma_kind_of_self(HeaderKind::Contact),
        Header::ContentDisposition(_) => lemma_kind_of_self(HeaderKind::ContentDisposition),
        Header::ContentEncoding(_) => lemma_kind_of_self(HeaderKind::ContentEncoding),
        Header::ContentLanguage(_) => lemma_kind_of_self(HeaderKind::ContentLanguage),
        Header::ContentLength(_) => lemma_kind_of_self(HeaderKind::ContentLength),
        Header::ContentType(_) => lemma_kind_of_self(HeaderKind::ContentType),
        Header::Date(_) => lemma_kind_of_self(HeaderKind::Date),
        Header::ErrorInfo(_) => lemma_kind_of_self(HeaderKind::ErrorInfo),
        Header::Expires(_) => lemma_kind_of_self(HeaderKind::Expires),
        Header::From(_) => lemma_kind_of_self(HeaderKind::From),
        Header::InReplyTo(_) => lemma_kind_of_self(HeaderKind::InReplyTo),
        Header::MaxForwards(_) => lemma_kind_of_self(HeaderKind::MaxForwards),
        Header::MimeVersion(_) => lemma_kind_of_self(HeaderKind::MimeVersion),
        Header::MinExpires(_) => lemma_kind_of_self(HeaderKind::MinExpires),
        Header::Organization(_) => lemma_kind_of_self(HeaderKind::Organization),
        Header::Priority(_) => lemma_kind_of_self(HeaderKind::Priority),
        Header::ProxyAuthenticate(_) => lemma_kind_of_self(HeaderKind::ProxyAuthenticate),
        Header::ProxyAuthorization(_) => lemma_kind_of_self(HeaderKind::ProxyAuthorization),
        Header::ProxyRequire(_) => lemma_kind_of_self(HeaderKind::ProxyRequire),
        Header::RecordRoute(_) => lemma_kind_of_self(HeaderKind::RecordRoute),
        Header::ReplyTo(_) => lemma_kind_of_self(HeaderKind::ReplyTo),
        Header::Require(_) => lemma_kind_of_self(HeaderKind::Require),
        Header::RetryAfter(_) => lemma_kind_of_self(HeaderKind::RetryAfter),
        Header::Route(_) => lemma_kind_of_self(HeaderKind::Route),
        Header::Server(_) => lemma_kind_of_self(HeaderKind::Server),
        Header::Subject(_) => lemma_kind_of_self(HeaderKind::Subject),
        Header::Supported(_) => lemma_kind_of_self(HeaderKind::Supported),
        Header::Timestamp(_) => lemma_kind_of_self(HeaderKind::Timestamp),
        Header::To(_) => lemma_kind_of_self(HeaderKind::To),
        Header::Unsupported(_) => lemma_kind_of_self(HeaderKind::Unsupported),
        Header::UserAgent(_) => lemma_kind_of_self(HeaderKind::UserAgent),
        Header::Via(_) => lemma_kind_of_self(HeaderKind::Via),
        Header::Warning(_) => lemma_kind_of_self(HeaderKind::Warning),
        Header::WwwAuthenticate(_) => lemma_kind_of_self(HeaderKind::WwwAuthenticate),
    }
}

} // verus!
