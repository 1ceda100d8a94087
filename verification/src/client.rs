//! Message-side helpers atop the header engine: a writer that carries the
//! per-session CSeq counter and Call-ID, and a helper that reads the common
//! headers out of a received message.  Assembling the surrounding message
//! envelope (start line, header block, body) belongs to a collaborating
//! component; these helpers produce and consume `Header` values only.
use vstd::prelude::*;
use crate::SipError;
use crate::scan::run_end;
use crate::tags::{HeaderKind, spec_tag, kind_of_tag, lemma_kind_of_self};
use crate::vocab::{Method, ContentType};
use crate::model::{Header, HeaderV, NamedV, NamedHeader, Uri, Params, copy_bytes};
use crate::headers::{Headers, first_of_kind, spec_kind_of_hv, hlist_view};

verus! {

/// The MD5 digest of a byte string: sixteen bytes depending on the input
/// alone.
pub uninterp spec fn md5_of(s: Seq<u8>) -> Seq<u8>;

/// Relies on `rand::random`: sixteen bytes drawn from the thread-local
/// generator.  Nothing is promised of their values.
#[verifier::external_body]
fn random_bytes16() -> (r: [u8; 16]) {
    rand::random::<[u8; 16]>()
}

/// Relies on `md5::compute`: the digest of the input bytes, a function of
/// the input alone (`Digest` wraps the sixteen digest bytes).
#[verifier::external_body]
fn md5_bytes(data: &[u8]) -> (r: [u8; 16])
    ensures
        r@ == md5_of(data@),
{
    md5::compute(data).0
}

/// The lowercase hex digit of a value below sixteen.
pub open spec fn hex_digit(n: int) -> u8 {
    if n < 10 {
        (48 + n) as u8
    } else {
        (87 + n) as u8
    }
}

/// Lowercase hex encoding: two digits for each byte, high nibble first.
pub open spec fn hex_of(s: Seq<u8>) -> Seq<u8> {
    Seq::new(
        2 * s.len(),
        |i: int|
            if i % 2 == 0 {
                hex_digit(s[i / 2] as int / 16)
            } else {
                hex_digit(s[i / 2] as int % 16)
            },
    )
}

fn hex_digit_x(n: u8) -> (r: u8)
    requires
        n < 16,
    ensures
        r == hex_digit(n as int),
{
    if n < 10 {
        48 + n
    } else {
        87 + n
    }
}

/// Encode bytes as lowercase hex.
pub fn hex_lower(data: &[u8]) -> (r: Vec<u8>)
    ensures
        r@ == hex_of(data@),
{
    let mut out: Vec<u8> = Vec::new();
    let n = data.len();
    let mut i: usize = 0;
    proof {
        assert(out@ =~= hex_of(data@.subrange(0, 0)));
    }
    while i < n
        invariant
            0 <= i <= n,
            n == data@.len(),
            out@ == hex_of(data@.subrange(0, i as int)),
        decreases n - i,
    {
        let c = crate::scan::at(data, i);
        out.push(hex_digit_x(c / 16));
        out.push(hex_digit_x(c % 16));
        proof {
            assert(out@ =~= hex_of(data@.subrange(0, i + 1)));
        }
        i = i + 1;
    }
    proof {
        assert(data@.subrange(0, n as int) =~= data@);
    }
    out
}

/// The host component this engine reads out of a URI's bytes: what follows
/// the first `@` (or, with no `@`, the first `:`), up to the next `:` or `;`.
pub open spec fn host_of(u: Seq<u8>) -> Seq<u8> {
    let ai = run_end(u, 0, |b: u8| b != 64);
    let start = if ai < u.len() {
        ai + 1
    } else {
        let ci = run_end(u, 0, |b: u8| b != 58);
        if ci < u.len() {
            ci + 1
        } else {
            0
        }
    };
    u.subrange(start, run_end(u, start, |b: u8| b != 58 && b != 59))
}

fn scan_not2(s: &[u8], i: usize, c1: u8, c2: u8) -> (r: usize)
    requires
        i <= s@.len(),
    ensures
        r == run_end(s@, i as int, |b: u8| b != c1 && b != c2),
        i <= r <= s@.len(),
{
    proof {
        crate::scan::lemma_run_end(s@, i as int, |b: u8| b != c1 && b != c2);
    }
    let mut j: usize = i;
    loop
        invariant
            i <= j <= s@.len(),
            run_end(s@, i as int, |b: u8| b != c1 && b != c2) == run_end(
                s@,
                j as int,
                |b: u8| b != c1 && b != c2,
            ),
        decreases s@.len() - j,
    {
        if j < s.len() {
            let c = crate::scan::at(s, j);
            if c != c1 && c != c2 {
                j = j + 1;
                continue ;
            }
        }
        return j;
    }
}

/// Read the host component out of a URI.
pub fn host_part(u: &Uri) -> (r: Vec<u8>)
    ensures
        r@ == host_of(u@),
{
    let s = u.raw.as_slice();
    let ai = scan_not2(s, 0, 64, 64);
    let start: usize = if ai < s.len() {
        ai + 1
    } else {
        let ci = scan_not2(s, 0, 58, 58);
        if ci < s.len() {
            ci + 1
        } else {
            0
        }
    };
    let e = scan_not2(s, start, 58, 59);
    proof {
        assert(run_end(s@, 0, |b: u8| b != 64 && b != 64) == run_end(s@, 0, |b: u8| b != 64))
            by {
            assert((|b: u8| b != 64 && b != 64) == (|b: u8| b != 64));
        }
        assert(run_end(s@, 0, |b: u8| b != 58 && b != 58) == run_end(s@, 0, |b: u8| b != 58))
            by {
            assert((|b: u8| b != 58 && b != 58) == (|b: u8| b != 58));
        }
    }
    vstd::slice::slice_to_vec(vstd::slice::slice_subrange(s, start, e))
}

/// The Call-ID derived from fresh entropy: the lowercase hex MD5 digest of
/// the seed, `@`, and the host read from the account URI.
pub fn derived_call_id(seed: &[u8], host: &[u8]) -> (r: Vec<u8>)
    ensures
        r@ == hex_of(md5_of(seed@)) + seq![64u8] + host@,
{
    let digest = md5_bytes(seed);
    let mut out = hex_lower(digest.as_slice());
    out.push(64);
    crate::write::push_all(&mut out, host);
    proof {
        assert(out@ =~= hex_of(md5_of(seed@)) + seq![64u8] + host@);
    }
    out
}

/// The default User-Agent value: the product token, a space and this
/// crate's version ("libsip 0.1.0").
pub open spec fn default_agent() -> Seq<u8> {
    seq![108u8, 105u8, 98u8, 115u8, 105u8, 112u8, 32u8, 48u8, 46u8, 49u8, 46u8, 48u8]
}

/// Per-session state for writing messages: the CSeq counter, the account
/// URI, the session Call-ID and an optional User-Agent override.
pub struct MessageWriter {
    pub cseq: u32,
    pub uri: Uri,
    pub call_id: Vec<u8>,
    pub user_agent: Option<Vec<u8>>,
}

impl MessageWriter {
    /// Open a session for the account `uri`: the counter starts at zero and
    /// the Call-ID is derived from sixteen random bytes and the URI's host.
    pub fn new(uri: Uri) -> (r: MessageWriter)
        ensures
            r.cseq == 0,
            r.uri@ == uri@,
            r.user_agent == None::<Vec<u8>>,
            exists|b: Seq<u8>|
                b.len() == 16 && r.call_id@ == hex_of(md5_of(b)) + seq![64u8] + host_of(uri@),
    {
        let seed = random_bytes16();
        let host = host_part(&uri);
        let call_id = derived_call_id(seed.as_slice(), host.as_slice());
        proof {
            assert(seed@.len() == 16);
        }
        MessageWriter { cseq: 0, uri, call_id, user_agent: None }
    }

    /// A CSeq header carrying the session counter and the MESSAGE method.
    pub fn cseq(&self) -> (r: Header)
        ensures
            r@ == HeaderV::CSeqV(self.cseq, Method::Message),
    {
        Header::CSeq(self.cseq, Method::Message)
    }

    /// A plain-text Content-Type header.
    pub fn content_type(&self) -> (r: Header)
        ensures
            r@ == HeaderV::CType(spec_tag(HeaderKind::ContentType), ContentType::PlainText),
    {
        Header::ContentType(ContentType::PlainText)
    }

    /// The default Max-Forwards header.
    pub fn max_forwards(&self) -> (r: Header)
        ensures
            r@ == HeaderV::Num(spec_tag(HeaderKind::MaxForwards), 70),
    {
        Header::MaxForwards(70)
    }

    /// The session's User-Agent header: the override when one was set, the
    /// default token otherwise.
    pub fn user_agent(&self) -> (r: Header)
        ensures
            r@ == HeaderV::Text(
                spec_tag(HeaderKind::UserAgent),
                match self.user_agent {
                    Some(a) => a@,
                    None => default_agent(),
                },
            ),
    {
        match &self.user_agent {
            Some(agent) => Header::UserAgent(copy_bytes(agent)),
            None => {
                let mut v: Vec<u8> = Vec::new();
                v.push(108);
                v.push(105);
                v.push(98);
                v.push(115);
                v.push(105);
                v.push(112);
                v.push(32);
                v.push(48);
                v.push(46);
                v.push(49);
                v.push(46);
                v.push(48);
                proof {
                    assert(v@ =~= default_agent());
                }
                Header::UserAgent(v)
            },
        }
    }

    /// The session's Call-ID header.
    pub fn call_id(&self) -> (r: Header)
        ensures
            r@ == HeaderV::Text(spec_tag(HeaderKind::CallId), self.call_id@),
    {
        Header::CallId(copy_bytes(&self.call_id))
    }

    /// A From header naming the account URI, bare.
    pub fn from(&self) -> (r: Header)
        ensures
            r@ == HeaderV::Named(
                spec_tag(HeaderKind::From),
                NamedV { name: None, uri: self.uri@, params: Seq::empty() },
            ),
    {
        Header::From(NamedHeader::new(self.uri.clone()))
    }

    /// The ordered headers of an outgoing MESSAGE request, advancing the
    /// CSeq counter; the body is handed back for the envelope assembler,
    /// whose Content-Length entry closes the list.
    pub fn write_message(&mut self, body: Vec<u8>, to: Uri, via_header: Header) -> (r: (
        Vec<Header>,
        Vec<u8>,
    ))
        requires
            old(self).cseq < u32::MAX,
            body@.len() <= u32::MAX,
        ensures
            final(self).cseq == old(self).cseq + 1,
            final(self).uri == old(self).uri,
            final(self).call_id == old(self).call_id,
            final(self).user_agent == old(self).user_agent,
            r.1@ == body@,
            hlist_view(r.0@) =~= seq![
                via_header@,
                HeaderV::Named(
                    spec_tag(HeaderKind::To),
                    NamedV { name: None, uri: to@, params: Seq::empty() },
                ),
                HeaderV::Named(
                    spec_tag(HeaderKind::From),
                    NamedV { name: None, uri: old(self).uri@, params: Seq::empty() },
                ),
                HeaderV::CSeqV((old(self).cseq + 1) as u32, Method::Message),
                HeaderV::Text(spec_tag(HeaderKind::CallId), old(self).call_id@),
                HeaderV::Text(
                    spec_tag(HeaderKind::UserAgent),
                    match old(self).user_agent {
                        Some(a) => a@,
                        None => default_agent(),
                    },
                ),
                HeaderV::Num(spec_tag(HeaderKind::MaxForwards), 70),
                HeaderV::CType(spec_tag(HeaderKind::ContentType), ContentType::PlainText),
                HeaderV::Num(spec_tag(HeaderKind::ContentLength), body@.len() as u32),
            ],
    {
        self.cseq = self.cseq + 1;
        let mut hs: Vec<Header> = Vec::new();
        hs.push(via_header);
        hs.push(Header::To(NamedHeader::new(to)));
        hs.push(self.from());
        hs.push(self.cseq());
        hs.push(self.call_id());
        hs.push(self.user_agent());
        hs.push(self.max_forwards());
        hs.push(self.content_type());
        hs.push(Header::ContentLength(body.len() as u32));
        (hs, body)
    }
}

/// A view over a received message: its request URI, its headers and its
/// body, with typed access to the common headers.
pub struct MessageHelper {
    pub uri: Uri,
    pub headers: Headers,
    pub body: Vec<u8>,
}

impl MessageHelper {
    /// Wrap the parts of a received message.
    pub fn new(uri: Uri, headers: Headers, body: Vec<u8>) -> (r: Result<MessageHelper, SipError>)
        ensures
            match r {
                Ok(h) => h.uri@ == uri@ && h.headers@ == headers@ && h.body@ == body@,
                Err(_) => false,
            },
    {
        Ok(MessageHelper { uri, headers, body })
    }

    /// The message body, copied out.
    pub fn data(&self) -> (r: Vec<u8>)
        ensures
            r@ == self.body@,
    {
        copy_bytes(&self.body)
    }

    /// The first named-address payload stored under kind `k`.
    #[verifier::rlimit(100)]
    fn named_of(&self, k: HeaderKind) -> (r: Result<NamedHeader, SipError>)
        requires
            k == HeaderKind::From || k == HeaderKind::To || k == HeaderKind::Contact,
        ensures
            match r {
                Ok(nh) => first_of_kind(self.headers@, k) == Some(
                    HeaderV::Named(spec_tag(k), nh@),
                ),
                Err(e) => e == SipError::HeaderAbsent && first_of_kind(self.headers@, k)
                    == None::<HeaderV>,
            },
    {
        proof {
            assert forall|kk: HeaderKind| kind_of_tag(#[trigger] spec_tag(kk)) == Some(kk) by {
                lemma_kind_of_self(kk);
            }
        }
        match self.headers.find_first(k) {
            None => Err(SipError::HeaderAbsent),
            Some(h) => match h {
                Header::From(nh) => Ok(nh),
                Header::To(nh) => Ok(nh),
                Header::Contact(nh) => Ok(nh),
                _ => Err(SipError::HeaderAbsent),
            },
        }
    }

    /// The first From header's payload, or `HeaderAbsent`.
    pub fn from(&self) -> (r: Result<NamedHeader, SipError>)
        ensures
            match r {
                Ok(nh) => first_of_kind(self.headers@, HeaderKind::From) == Some(
                    HeaderV::Named(spec_tag(HeaderKind::From), nh@),
                ),
                Err(e) => e == SipError::HeaderAbsent && first_of_kind(
                    self.headers@,
                    HeaderKind::From,
                ) == None::<HeaderV>,
            },
    {
        self.named_of(HeaderKind::From)
    }

    /// The first To header's payload, or `HeaderAbsent`.
    pub fn to(&self) -> (r: Result<NamedHeader, SipError>)
        ensures
            match r {
                Ok(nh) => first_of_kind(self.headers@, HeaderKind::To) == Some(
                    HeaderV::Named(spec_tag(HeaderKind::To), nh@),
                ),
                Err(e) => e == SipError::HeaderAbsent && first_of_kind(
                    self.headers@,
                    HeaderKind::To,
                ) == None::<HeaderV>,
            },
    {
        self.named_of(HeaderKind::To)
    }

    /// The first Contact header's payload, or `HeaderAbsent`.
    pub fn contact(&self) -> (r: Result<NamedHeader, SipError>)
        ensures
            match r {
                Ok(nh) => first_of_kind(self.headers@, HeaderKind::Contact) == Some(
                    HeaderV::Named(spec_tag(HeaderKind::Contact), nh@),
                ),
                Err(e) => e == SipError::HeaderAbsent && first_of_kind(
                    self.headers@,
                    HeaderKind::Contact,
                ) == None::<HeaderV>,
            },
    {
        self.named_of(HeaderKind::Contact)
    }

    /// The first text payload stored under kind `k`.
    #[verifier::rlimit(100)]
    fn text_of(&self, k: HeaderKind) -> (r: Result<Vec<u8>, SipError>)
        requires
            k == HeaderKind::CallId || k == HeaderKind::Via,
        ensures
            match r {
                Ok(v) => first_of_kind(self.headers@, k) == Some(HeaderV::Text(spec_tag(k), v@)),
                Err(e) => e == SipError::HeaderAbsent && first_of_kind(self.headers@, k)
                    == None::<HeaderV>,
            },
    {
        proof {
            assert forall|kk: HeaderKind| kind_of_tag(#[trigger] spec_tag(kk)) == Some(kk) by {
                lemma_kind_of_self(kk);
            }
        }
        match self.headers.find_first(k) {
            None => Err(SipError::HeaderAbsent),
            Some(h) => match h {
                Header::CallId(v) => Ok(v),
                Header::Via(v) => Ok(v),
                _ => Err(SipError::HeaderAbsent),
            },
        }
    }

    /// The first Call-ID value, or `HeaderAbsent`.
    pub fn call_id(&self) -> (r: Result<Vec<u8>, SipError>)
        ensures
            match r {
                Ok(v) => first_of_kind(self.headers@, HeaderKind::CallId) == Some(
                    HeaderV::Text(spec_tag(HeaderKind::CallId), v@),
                ),
                Err(e) => e == SipError::HeaderAbsent && first_of_kind(
                    self.headers@,
                    HeaderKind::CallId,
                ) == None::<HeaderV>,
            },
    {
        self.text_of(HeaderKind::CallId)
    }

    /// The first Via value, or `HeaderAbsent`.
    pub fn via(&self) -> (r: Result<Vec<u8>, SipError>)
        ensures
            match r {
                Ok(v) => first_of_kind(self.headers@, HeaderKind::Via) == Some(
                    HeaderV::Text(spec_tag(HeaderKind::Via), v@),
                ),
                Err(e) => e == SipError::HeaderAbsent && first_of_kind(
                    self.headers@,
                    HeaderKind::Via,
                ) == None::<HeaderV>,
            },
    {
        self.text_of(HeaderKind::Via)
    }

    /// The ordered headers of the immediate OK reply to this message: its
    /// From, To, Call-ID, CSeq and Via entries carried over, closed by a
    /// zero Content-Length.  The reply's status line belongs to the envelope
    /// assembler.  The five headers must be present: a message without them
    /// cannot be answered.
    pub fn received(&self) -> (r: Vec<Header>)
        requires
            first_of_kind(self.headers@, HeaderKind::From) is Some,
            first_of_kind(self.headers@, HeaderKind::To) is Some,
            first_of_kind(self.headers@, HeaderKind::CallId) is Some,
            first_of_kind(self.headers@, HeaderKind::CSeq) is Some,
            first_of_kind(self.headers@, HeaderKind::Via) is Some,
        ensures
            hlist_view(r@) =~= seq![
                first_of_kind(self.headers@, HeaderKind::From)->Some_0,
                first_of_kind(self.headers@, HeaderKind::To)->Some_0,
                first_of_kind(self.headers@, HeaderKind::CallId)->Some_0,
                first_of_kind(self.headers@, HeaderKind::CSeq)->Some_0,
                first_of_kind(self.headers@, HeaderKind::Via)->Some_0,
                HeaderV::Num(spec_tag(HeaderKind::ContentLength), 0),
            ],
    {
        let mut hs: Vec<Header> = Vec::new();
        match self.headers.find_first(HeaderKind::From) {
            Some(h) => hs.push(h),
            None => {},
        }
        match self.headers.find_first(HeaderKind::To) {
            Some(h) => hs.push(h),
            None => {},
        }
        match self.headers.find_first(HeaderKind::CallId) {
            Some(h) => hs.push(h),
            None => {},
        }
        match self.headers.find_first(HeaderKind::CSeq) {
            Some(h) => hs.push(h),
            None => {},
        }
        match self.headers.find_first(HeaderKind::Via) {
            Some(h) => hs.push(h),
            None => {},
        }
        hs.push(Header::ContentLength(0));
        hs
    }
}

} // verus!
