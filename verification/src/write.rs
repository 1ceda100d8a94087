//! The serializer: the exact inverse of the header grammar, rendering a
//! `Header` value back to canonical wire text (without the line terminator,
//! which the caller appends when writing a message).
use vstd::prelude::*;
use crate::scan::{colon_space, spec_digits, push_digits};
use crate::tags::{HeaderKind, spec_tag, tag_bytes};
use crate::vocab::{Method, ContentType, Language, method_tok, ctype_tok, lang_tok, method_bytes, ctype_bytes, lang_bytes};
use crate::model::{Header, HeaderV, NamedV, NamedHeader, Params, words_view};

verus! {

/// Append every byte of a slice.
pub fn push_all(out: &mut Vec<u8>, s: &[u8])
    ensures
        final(out)@ == old(out)@ + s@,
{
    let mut i: usize = 0;
    while i < s.len()
        invariant
            0 <= i <= s@.len(),
            out@ == old(out)@ + s@.subrange(0, i as int),
        decreases s@.len() - i,
    {
        out.push(*vstd::slice::slice_index_get(s, i));
        proof {
            assert(out@ =~= old(out)@ + s@.subrange(0, i + 1));
        }
        i = i + 1;
    }
    proof {
        assert(out@ =~= old(out)@ + s@);
    }
}

/// The canonical text of a method array: tokens joined by a bare comma.
pub open spec fn ser_methods_s(ms: Seq<Method>) -> Seq<u8>
    decreases ms.len(),
{
    if ms.len() == 0 {
        Seq::empty()
    } else if ms.len() == 1 {
        method_tok(ms[0])
    } else {
        method_tok(ms[0]) + seq![44u8] + ser_methods_s(ms.drop_first())
    }
}

/// The canonical text of a word array: words joined by a bare comma.
pub open spec fn ser_words_s(ws: Seq<Seq<u8>>) -> Seq<u8>
    decreases ws.len(),
{
    if ws.len() == 0 {
        Seq::empty()
    } else if ws.len() == 1 {
        ws[0]
    } else {
        ws[0] + seq![44u8] + ser_words_s(ws.drop_first())
    }
}

/// The canonical text of a parameter map: `;key=value` per entry, in stored
/// order.
pub open spec fn ser_params_s(ps: Seq<(Seq<u8>, Seq<u8>)>) -> Seq<u8>
    decreases ps.len(),
{
    if ps.len() == 0 {
        Seq::empty()
    } else {
        seq![59u8] + ps[0].0 + seq![61u8] + ps[0].1 + ser_params_s(ps.drop_first())
    }
}

/// The canonical text of a named-address payload: the display name always
/// quoted when present, then `<uri>`, then the parameters.
pub open spec fn ser_named_s(nv: NamedV) -> Seq<u8> {
    (match nv.name {
        Some(n) => seq![34u8] + n + seq![34u8, 32u8],
        None => Seq::empty(),
    }) + seq![60u8] + nv.uri + seq![62u8] + ser_params_s(nv.params)
}

/// The canonical wire text of a header value: its tag, a colon and one
/// space, then the payload rendered by the exact inverse of its grammar.
pub open spec fn spec_serialize(hv: HeaderV) -> Seq<u8> {
    match hv {
        HeaderV::Num(t, n) => t + colon_space() + spec_digits(n as int),
        HeaderV::Dec(t, d) => t + colon_space() + d,
        HeaderV::Text(t, v) => t + colon_space() + v,
        HeaderV::Methods(t, ms) => t + colon_space() + ser_methods_s(ms),
        HeaderV::Words(t, ws) => t + colon_space() + ser_words_s(ws),
        HeaderV::Named(t, nv) => t + colon_space() + ser_named_s(nv),
        HeaderV::CType(t, c) => t + colon_space() + ctype_tok(c),
        HeaderV::Lang(t, l) => t + colon_space() + lang_tok(l),
        HeaderV::CSeqV(n, m) => spec_tag(HeaderKind::CSeq) + colon_space() + spec_digits(n as int)
            + seq![32u8] + method_tok(m),
        HeaderV::Other(nm, v) => nm + colon_space() + v,
    }
}

/// A fresh buffer holding `tag`, a colon and one space.
fn out_tagged(k: HeaderKind) -> (r: Vec<u8>)
    ensures
        r@ == spec_tag(k) + colon_space(),
{
    let mut v = tag_bytes(k);
    v.push(58);
    v.push(32);
    proof {
        assert(v@ =~= spec_tag(k) + colon_space());
    }
    v
}

/// Append the canonical text of the method array tail starting at `i`.
fn push_methods(out: &mut Vec<u8>, ms: &Vec<Method>, i: usize)
    requires
        i < ms@.len(),
    ensures
        final(out)@ == old(out)@ + ser_methods_s(ms@.subrange(i as int, ms@.len() as int)),
    decreases ms@.len() - i,
{
    let n = ms.len();
    let tok = method_bytes(ms[i]);
    push_all(out, tok.as_slice());
    let ghost tail = ms@.subrange(i as int, ms@.len() as int);
    if i + 1 < n {
        out.push(44);
        push_methods(out, ms, i + 1);
        proof {
            assert(tail.drop_first() =~= ms@.subrange(i + 1, ms@.len() as int));
            assert(out@ =~= old(out)@ + ser_methods_s(tail));
        }
    } else {
        proof {
            assert(tail.len() == 1);
            assert(out@ =~= old(out)@ + ser_methods_s(tail));
        }
    }
}

/// Append the canonical text of the word array tail starting at `i`.
fn push_words(out: &mut Vec<u8>, ws: &Vec<Vec<u8>>, i: usize)
    requires
        i < ws@.len(),
    ensures
        final(out)@ == old(out)@ + ser_words_s(words_view(ws@).subrange(i as int, ws@.len() as int)),
    decreases ws@.len() - i,
{
    let n = ws.len();
    push_all(out, ws[i].as_slice());
    let ghost tail = words_view(ws@).subrange(i as int, ws@.len() as int);
    if i + 1 < n {
        out.push(44);
        push_words(out, ws, i + 1);
        proof {
            assert(tail.drop_first() =~= words_view(ws@).subrange(i + 1, ws@.len() as int));
            assert(out@ =~= old(out)@ + ser_words_s(tail));
        }
    } else {
        proof {
            assert(tail.len() == 1);
            assert(out@ =~= old(out)@ + ser_words_s(tail));
        }
    }
}

/// Append the canonical text of the parameter entries starting at `i`.
fn push_params(out: &mut Vec<u8>, ps: &Params, i: usize)
    requires
        i <= ps@.len(),
    ensures
        final(out)@ == old(out)@ + ser_params_s(ps@.subrange(i as int, ps@.len() as int)),
    decreases ps@.len() - i,
{
    let ghost tail = ps@.subrange(i as int, ps@.len() as int);
    if i < ps.entries.len() {
        out.push(59);
        push_all(out, ps.entries[i].0.as_slice());
        out.push(61);
        push_all(out, ps.entries[i].1.as_slice());
        push_params(out, ps, i + 1);
        proof {
            assert(tail.drop_first() =~= ps@.subrange(i + 1, ps@.len() as int));
            assert(tail[0] == (ps.entries@[i as int].0@, ps.entries@[i as int].1@));
            assert(out@ =~= old(out)@ + ser_params_s(tail));
        }
    } else {
        proof {
            assert(tail.len() == 0);
            assert(out@ =~= old(out)@ + ser_params_s(tail));
        }
    }
}

/// Append the canonical text of a named-address payload.
fn push_named(out: &mut Vec<u8>, nh: &NamedHeader)
    ensures
        final(out)@ == old(out)@ + ser_named_s(nh@),
{
    match &nh.display_name {
        Some(n) => {
            out.push(34);
            push_all(out, n.as_slice());
            out.push(34);
            out.push(32);
        },
        None => {},
    }
    out.push(60);
    push_all(out, nh.uri.raw.as_slice());
    out.push(62);
    if nh.params.entries.len() > 0 {
        push_params(out, &nh.params, 0);
        proof {
            assert(nh.params@.subrange(0, nh.params@.len() as int) =~= nh.params@);
        }
    } else {
        proof {
            assert(nh.params@.subrange(0, nh.params@.len() as int) =~= nh.params@);
            assert(ser_params_s(nh.params@) =~= Seq::<u8>::empty());
        }
    }
    proof {
        assert(out@ =~= old(out)@ + ser_named_s(nh@));
    }
}

/// Render a header value to its canonical wire text (no line terminator).
pub fn serialize_header(h: &Header) -> (r: Vec<u8>)
    ensures
        r@ == spec_serialize(h@),
{
    match h {
        Header::ContentLength(p) => {
            let mut v = out_tagged(HeaderKind::ContentLength);
            push_digits(&mut v, *p);
            proof {
                assert(v@ =~= spec_serialize(h@));
            }
            v
        },
        Header::Expires(p) => {
            let mut v = out_tagged(HeaderKind::Expires);
            push_digits(&mut v, *p);
            proof {
                assert(v@ =~= spec_serialize(h@));
            }
            v
        },
        Header::MaxForwards(p) => {
            let mut v = out_tagged(HeaderKind::MaxForwards);
            push_digits(&mut v, *p);
            proof {
                assert(v@ =~= spec_serialize(h@));
            }
            v
        },
        Header::MinExpires(p) => {
            let mut v = out_tagged(HeaderKind::MinExpires);
            push_digits(&mut v, *p);
            proof {
                assert(v@ =~= spec_serialize(h@));
            }
            v
        },
        Header::Timestamp(p) => {
            let mut v = out_tagged(HeaderKind::Timestamp);
            push_digits(&mut v, *p);
            proof {
                assert(v@ =~= spec_serialize(h@));
            }
            v
        },
        Header::MimeVersion(p) => {
            let mut v = out_tagged(HeaderKind::MimeVersion);
            push_all(&mut v, p.as_slice());
            proof {
                assert(v@ =~= spec_serialize(h@));
            }
            v
        },
        Header::AlertInfo(p) => {
            let mut v = out_tagged(HeaderKind::AlertInfo);
            push_all(&mut v, p.as_slice());
            proof {
                assert(v@ =~= spec_serialize(h@));
            }
            v
        },
        Header::AuthenticationInfo(p) => {
            let mut v = out_tagged(HeaderKind::AuthenticationInfo);
            push_all(&mut v, p.as_slice());
            proof {
                assert(v@ =~= spec_serialize(h@));
            }
            v
        },
        Header::Authorization(p) => {
            let mut v = out_tagged(HeaderKind::Authorization);
            push_all(&mut v, p.as_slice());
            proof {
                assert(v@ =~= spec_serialize(h@));
            }
            v
        },
        Header::CallInfo(p) => {
            let mut v = out_tagged(HeaderKind::CallInfo);
            push_all(&mut v, p.as_slice());
            proof {
                assert(v@ =~= spec_serialize(h@));
            }
            v
        },
        Header::CallId(p) => {
            let mut v = out_tagged(HeaderKind::CallId);
            push_all(&mut v, p.as_slice());
            proof {
                assert(v@ =~= spec_serialize(h@));
            }
            v
        },
        Header::ContentDisposition(p) => {
            let mut v = out_tagged(HeaderKind::ContentDisposition);
            push_all(&mut v, p.as_slice());
            proof {
                assert(v@ =~= spec_serialize(h@));
            }
            v
        },
        Header::Date(p) => {
            let mut v = out_tagged(HeaderKind::Date);
            push_all(&mut v, p.as_slice());
            proof {
                assert(v@ =~= spec_serialize(h@));
            }
            v
        },
        Header::ErrorInfo(p) => {
            let mut v = out_tagged(HeaderKind::ErrorInfo);
            push_all(&mut v, p.as_slice());
            proof {
                assert(v@ =~= spec_serialize(h@));
            }
            v
        },
        Header::InReplyTo(p) => {
            let mut v = out_tagged(HeaderKind::InReplyTo);
            push_all(&mut v, p.as_slice());
            proof {
                assert(v@ =~= spec_serialize(h@));
            }
            v
        },
        Header::Organization(p) => {
            let mut v = out_tagged(HeaderKind::Organization);
            push_all(&mut v, p.as_slice());
            proof {
                assert(v@ =~= spec_serialize(h@));
            }
            v
        },
        Header::Priority(p) => {
            let mut v = out_tagged(HeaderKind::Priority);
            push_all(&mut v, p.as_slice());
            proof {
                assert(v@ =~= spec_serialize(h@));
            }
            v
        },
        Header::ProxyAuthenticate(p) => {
            let mut v = out_tagged(HeaderKind::ProxyAuthenticate);
            push_all(&mut v, p.as_slice());
            proof {
                assert(v@ =~= spec_serialize(h@));
            }
            v
        },
        Header::ProxyAuthorization(p) => {
            let mut v = out_tagged(HeaderKind::ProxyAuthorization);
            push_all(&mut v, p.as_slice());
            proof {
                assert(v@ =~= spec_serialize(h@));
            }
            v
        },
        Header::ProxyRequire(p) => {
            let mut v = out_tagged(HeaderKind::ProxyRequire);
            push_all(&mut v, p.as_slice());
            proof {
                assert(v@ =~= spec_serialize(h@));
            }
            v
        },
        Header::RecordRoute(p) => {
            let mut v = out_tagged(HeaderKind::RecordRoute);
            push_all(&mut v, p.as_slice());
            proof {
                assert(v@ =~= spec_serialize(h@));
            }
            v
        },
        Header::Require(p) => {
            let mut v = out_tagged(HeaderKind::Require);
            push_all(&mut v, p.as_slice());
            proof {
                assert(v@ =~= spec_serialize(h@));
            }
            v
        },
        Header::RetryAfter(p) => {
            let mut v = out_tagged(HeaderKind::RetryAfter);
            push_all(&mut v, p.as_slice());
            proof {
                assert(v@ =~= spec_serialize(h@));
            }
            v
        },
        Header::Route(p) => {
            let mut v = out_tagged(HeaderKind::Route);
            push_all(&mut v, p.as_slice());
            proof {
                assert(v@ =~= spec_serialize(h@));
            }
            v
        },
        Header::Server(p) => {
            let mut v = out_tagged(HeaderKind::Server);
            push_all(&mut v, p.as_slice());
            proof {
                assert(v@ =~= spec_serialize(h@));
            }
            v
        },
        Header::Subject(p) => {
            let mut v = out_tagged(HeaderKind::Subject);
            push_all(&mut v, p.as_slice());
            proof {
                assert(v@ =~= spec_serialize(h@));
            }
            v
        },
        Header::Unsupported(p) => {
            let mut v = out_tagged(HeaderKind::Unsupported);
            push_all(&mut v, p.as_slice());
            proof {
                assert(v@ =~= spec_serialize(h@));
            }
            v
        },
        Header::UserAgent(p) => {
            let mut v = out_tagged(HeaderKind::UserAgent);
            push_all(&mut v, p.as_slice());
            proof {
                assert(v@ =~= spec_serialize(h@));
            }
            v
        },
        Header::Via(p) => {
            let mut v = out_tagged(HeaderKind::Via);
            push_all(&mut v, p.as_slice());
            proof {
                assert(v@ =~= spec_serialize(h@));
            }
            v
        },
        Header::Warning(p) => {
            let mut v = out_tagged(HeaderKind::Warning);
            push_all(&mut v, p.as_slice());
            proof {
                assert(v@ =~= spec_serialize(h@));
            }
            v
        },
        Header::WwwAuthenticate(p) => {
            let mut v = out_tagged(HeaderKind::WwwAuthenticate);
            push_all(&mut v, p.as_slice());
            proof {
                assert(v@ =~= spec_serialize(h@));
            }
            v
        },
        Header::Accept(p) => {
            let mut v = out_tagged(HeaderKind::Accept);
            if p.len() > 0 {
                push_methods(&mut v, p, 0);
                proof {
                    assert(p@.subrange(0, p@.len() as int) =~= p@);
                }
            } else {
                proof {
                    assert(ser_methods_s(p@) =~= Seq::<u8>::empty());
                }
            }
            proof {
                assert(v@ =~= spec_serialize(h@));
            }
            v
        },
        Header::Allow(p) => {
            let mut v = out_tagged(HeaderKind::Allow);
            if p.len() > 0 {
                push_methods(&mut v, p, 0);
                proof {
                    assert(p@.subrange(0, p@.len() as int) =~= p@);
                }
            } else {
                proof {
                    assert(ser_methods_s(p@) =~= Seq::<u8>::empty());
                }
            }
            proof {
                assert(v@ =~= spec_serialize(h@));
            }
            v
        },
        Header::Supported(p) => {
            let mut v = out_tagged(HeaderKind::Supported);
            if p.len() > 0 {
                push_words(&mut v, p, 0);
                proof {
                    assert(words_view(p@).subrange(0, p@.len() as int) =~= words_view(p@));
                }
            } else {
                proof {
                    assert(ser_words_s(words_view(p@)) =~= Seq::<u8>::empty());
                }
            }
            proof {
                assert(v@ =~= spec_serialize(h@));
            }
            v
        },
        Header::Contact(p) => {
            let mut v = out_tagged(HeaderKind::Contact);
            push_named(&mut v, p);
            proof {
                assert(v@ =~= spec_serialize(h@));
            }
            v
        },
        Header::From(p) => {
            let mut v = out_tagged(HeaderKind::From);
            push_named(&mut v, p);
            proof {
                assert(v@ =~= spec_serialize(h@));
            }
            v
        },
        Header::ReplyTo(p) => {
            let mut v = out_tagged(HeaderKind::ReplyTo);
            push_named(&mut v, p);
            proof {
                assert(v@ =~= spec_serialize(h@));
            }
            v
        },
        Header::To(p) => {
            let mut v = out_tagged(HeaderKind::To);
            push_named(&mut v, p);
            proof {
                assert(v@ =~= spec_serialize(h@));
            }
            v
        },
        Header::AcceptEncoding(p) => {
            let mut v = out_tagged(HeaderKind::AcceptEncoding);
            let tok = ctype_bytes(*p);
            push_all(&mut v, tok.as_slice());
            proof {
                assert(v@ =~= spec_serialize(h@));
            }
            v
        },
        Header::ContentEncoding(p) => {
            let mut v = out_tagged(HeaderKind::ContentEncoding);
            let tok = ctype_bytes(*p);
            push_all(&mut v, tok.as_slice());
            proof {
                assert(v@ =~= spec_serialize(h@));
            }
            v
        },
        Header::ContentType(p) => {
            let mut v = out_tagged(HeaderKind::ContentType);
            let tok = ctype_bytes(*p);
            push_all(&mut v, tok.as_slice());
            proof {
                assert(v@ =~= spec_serialize(h@));
            }
            v
        },
        Header::AcceptLanguage(p) => {
            let mut v = out_tagged(HeaderKind::AcceptLanguage);
            let tok = lang_bytes(*p);
            push_all(&mut v, tok.as_slice());
            proof {
                assert(v@ =~= spec_serialize(h@));
            }
            v
        },
        Header::ContentLanguage(p) => {
            let mut v = out_tagged(HeaderKind::ContentLanguage);
            let tok = lang_bytes(*p);
            push_all(&mut v, tok.as_slice());
            proof {
                assert(v@ =~= spec_serialize(h@));
            }
            v
        },
        Header::CSeq(n, m) => {
            let mut v = out_tagged(HeaderKind::CSeq);
            push_digits(&mut v, *n);
            v.push(32);
            let tok = method_bytes(*m);
            push_all(&mut v, tok.as_slice());
            proof {
                assert(v@ =~= spec_serialize(h@));
            }
            v
        },
        Header::Other(name, val) => {
            let mut v = crate::model::copy_bytes(name);
            v.push(58);
            v.push(32);
            push_all(&mut v, val.as_slice());
            proof {
                assert(v@ =~= spec_serialize(h@));
            }
            v
        },
    }
}

} // verus!
