//! The typed header model: the closed `Header` sum type, its abstract view
//! over byte sequences, and the named-address building blocks.
use vstd::prelude::*;
use crate::vocab::{Method, ContentType, Language};
use crate::tags::{HeaderKind, Shape, spec_tag, shape_of, kind_of_tag, tag_wf};
use crate::scan::{is_uri_b, is_name_b, is_alpha_b, is_alnum_b, is_dec_b, is_digit_b, is_text_b, is_space_b};

verus! {

/// Copy the bytes of a vector.
pub fn copy_bytes(v: &Vec<u8>) -> (r: Vec<u8>)
    ensures
        r@ == v@,
{
    let mut out: Vec<u8> = Vec::new();
    let mut i: usize = 0;
    while i < v.len()
        invariant
            0 <= i <= v@.len(),
            out@ == v@.subrange(0, i as int),
        decreases v@.len() - i,
    {
        out.push(*vstd::slice::slice_index_get(v.as_slice(), i));
        proof {
            assert(out@ =~= v@.subrange(0, i + 1));
        }
        i = i + 1;
    }
    proof {
        assert(out@ =~= v@);
    }
    out
}

/// Copy a vector of copyable items.
pub fn copy_items<T: Copy>(v: &Vec<T>) -> (r: Vec<T>)
    ensures
        r@ == v@,
{
    let mut out: Vec<T> = Vec::new();
    let mut i: usize = 0;
    while i < v.len()
        invariant
            0 <= i <= v@.len(),
            out@ == v@.subrange(0, i as int),
        decreases v@.len() - i,
    {
        out.push(*vstd::slice::slice_index_get(v.as_slice(), i));
        proof {
            assert(out@ =~= v@.subrange(0, i + 1));
        }
        i = i + 1;
    }
    proof {
        assert(out@ =~= v@);
    }
    out
}

/// A URI carried opaquely between `<` and `>`: the wire bytes, kept verbatim.
/// The full URI grammar belongs to a collaborating component; this model only
/// guarantees that the bytes can be re-embedded (no `>` and no line break).
#[derive(Debug, PartialEq)]
pub struct Uri {
    pub raw: Vec<u8>,
}

impl View for Uri {
    type V = Seq<u8>;

    open spec fn view(&self) -> Seq<u8> {
        self.raw@
    }
}

/// A URI that can be embedded between `<` and `>` and re-parsed.
pub open spec fn uri_wf(u: Seq<u8>) -> bool {
    u.len() >= 1 && forall|i: int| 0 <= i < u.len() ==> is_uri_b(#[trigger] u[i])
}

impl Uri {
    /// Wrap wire bytes as a URI value.
    pub fn new(raw: Vec<u8>) -> (r: Uri)
        ensures
            r@ == raw@,
    {
        Uri { raw }
    }
}

impl Clone for Uri {
    fn clone(&self) -> (r: Self)
        ensures
            r@ == self@,
    {
        Uri { raw: copy_bytes(&self.raw) }
    }
}

/// First index whose key equals `k`, or `-1`.
pub open spec fn find_key(ps: Seq<(Seq<u8>, Seq<u8>)>, k: Seq<u8>) -> int
    decreases ps.len(),
{
    if ps.len() == 0 {
        -1
    } else if ps[0].0 == k {
        0
    } else {
        let r = find_key(ps.drop_first(), k);
        if r < 0 {
            -1
        } else {
            r + 1
        }
    }
}

/// `find_key` returns the first index holding `k`, or `-1` when no index does.
pub proof fn lemma_find_key(ps: Seq<(Seq<u8>, Seq<u8>)>, k: Seq<u8>)
    ensures
        find_key(ps, k) >= 0 ==> find_key(ps, k) < ps.len() && ps[find_key(ps, k)].0 == k
            && forall|i: int| 0 <= i < find_key(ps, k) ==> (#[trigger] ps[i]).0 != k,
        find_key(ps, k) < 0 ==> find_key(ps, k) == -1 && forall|i: int|
            0 <= i < ps.len() ==> (#[trigger] ps[i]).0 != k,
    decreases ps.len(),
{
    if ps.len() > 0 && ps[0].0 != k {
        lemma_find_key(ps.drop_first(), k);
        let r = find_key(ps.drop_first(), k);
        if r < 0 {
            assert forall|i: int| 0 <= i < ps.len() implies (#[trigger] ps[i]).0 != k by {
                if i >= 1 {
                    assert(ps[i] == ps.drop_first()[i - 1]);
                }
            }
        } else {
            assert(ps[r + 1] == ps.drop_first()[r]);
            assert forall|i: int| 0 <= i < r + 1 implies (#[trigger] ps[i]).0 != k by {
                if i >= 1 {
                    assert(ps[i] == ps.drop_first()[i - 1]);
                }
            }
        }
    }
}

/// Key-unique insertion: a later duplicate overwrites the earlier value in
/// place, a fresh key is appended.
pub open spec fn params_insert(
    ps: Seq<(Seq<u8>, Seq<u8>)>,
    k: Seq<u8>,
    v: Seq<u8>,
) -> Seq<(Seq<u8>, Seq<u8>)> {
    let j = find_key(ps, k);
    if j >= 0 {
        ps.update(j, (k, v))
    } else {
        ps.push((k, v))
    }
}

/// The value stored under `k`, if any.
pub open spec fn params_get(ps: Seq<(Seq<u8>, Seq<u8>)>, k: Seq<u8>) -> Option<Seq<u8>> {
    let j = find_key(ps, k);
    if j >= 0 {
        Some(ps[j].1)
    } else {
        None
    }
}

/// Well-formed parameters: keys pairwise distinct and alphabetic, values
/// alphanumeric.
pub open spec fn params_wf(ps: Seq<(Seq<u8>, Seq<u8>)>) -> bool {
    (forall|i: int, j: int| 0 <= i < j < ps.len() ==> (#[trigger] ps[i]).0 != (#[trigger] ps[j]).0)
    && (forall|i: int, c: int| #![trigger ps[i].0[c]]
        0 <= i < ps.len() && 0 <= c < ps[i].0.len() ==> is_alpha_b(ps[i].0[c]))
    && (forall|i: int, c: int| #![trigger ps[i].1[c]]
        0 <= i < ps.len() && 0 <= c < ps[i].1.len() ==> is_alnum_b(ps[i].1[c]))
}

/// An ordered, key-unique parameter map with byte-string keys and values.
#[derive(Debug, PartialEq)]
pub struct Params {
    pub entries: Vec<(Vec<u8>, Vec<u8>)>,
}

impl View for Params {
    type V = Seq<(Seq<u8>, Seq<u8>)>;

    open spec fn view(&self) -> Seq<(Seq<u8>, Seq<u8>)> {
        Seq::new(self.entries@.len(), |i: int| (self.entries@[i].0@, self.entries@[i].1@))
    }
}

impl Params {
    /// The empty map.
    pub fn new() -> (r: Params)
        ensures
            r@ == Seq::<(Seq<u8>, Seq<u8>)>::empty(),
    {
        let r = Params { entries: Vec::new() };
        proof {
            assert(r@ =~= Seq::<(Seq<u8>, Seq<u8>)>::empty());
        }
        r
    }

    /// Number of entries.
    pub fn len(&self) -> (r: usize)
        ensures
            r == self@.len(),
    {
        self.entries.len()
    }

    /// Insert `k = v`; a duplicate key overwrites the stored value in place.
    pub fn insert(&mut self, k: Vec<u8>, v: Vec<u8>)
        ensures
            final(self)@ == params_insert(old(self)@, k@, v@),
    {
        proof {
            lemma_find_key(self@, k@);
        }
        let n = self.entries.len();
        let mut i: usize = 0;
        while i < n
            invariant
                0 <= i <= n,
                n == self@.len(),
                n == self.entries@.len(),
                *self == *old(self),
                forall|j: int| 0 <= j < i ==> (#[trigger] self@[j]).0 != k@,
            decreases n - i,
        {
            proof {
                lemma_find_key(self@, k@);
            }
            if crate::scan::range_is(
                self.entries[i].0.as_slice(),
                0,
                self.entries[i].0.len(),
                k.as_slice(),
            ) {
                proof {
                    assert(self.entries@[i as int].0@.subrange(
                        0,
                        self.entries@[i as int].0@.len() as int,
                    ) =~= self@[i as int].0);
                    assert(find_key(self@, k@) == i);
                }
                self.entries[i] = (k, v);
                proof {
                    assert(final(self)@ =~= params_insert(old(self)@, k@, v@));
                }
                return ;
            }
            proof {
                assert(self.entries@[i as int].0@.subrange(
                    0,
                    self.entries@[i as int].0@.len() as int,
                ) =~= self@[i as int].0);
            }
            i = i + 1;
        }
        proof {
            lemma_find_key(self@, k@);
            assert(find_key(self@, k@) == -1);
        }
        self.entries.push((k, v));
        proof {
            assert(final(self)@ =~= params_insert(old(self)@, k@, v@));
        }
    }

    /// Look a key up.
    pub fn get(&self, k: &[u8]) -> (r: Option<Vec<u8>>)
        ensures
            match r {
                Some(v) => params_get(self@, k@) == Some(v@),
                None => params_get(self@, k@) == None::<Seq<u8>>,
            },
    {
        proof {
            lemma_find_key(self@, k@);
        }
        let n = self.entries.len();
        let mut i: usize = 0;
        while i < n
            invariant
                0 <= i <= n,
                n == self@.len(),
                n == self.entries@.len(),
                forall|j: int| 0 <= j < i ==> (#[trigger] self@[j]).0 != k@,
            decreases n - i,
        {
            proof {
                lemma_find_key(self@, k@);
            }
            if crate::scan::range_is(
                self.entries[i].0.as_slice(),
                0,
                self.entries[i].0.len(),
                k,
            ) {
                proof {
                    assert(self.entries@[i as int].0@.subrange(
                        0,
                        self.entries@[i as int].0@.len() as int,
                    ) =~= self@[i as int].0);
                    assert(find_key(self@, k@) == i);
                }
                return Some(copy_bytes(&self.entries[i].1));
            }
            proof {
                assert(self.entries@[i as int].0@.subrange(
                    0,
                    self.entries@[i as int].0@.len() as int,
                ) =~= self@[i as int].0);
            }
            i = i + 1;
        }
        proof {
            lemma_find_key(self@, k@);
            assert(find_key(self@, k@) == -1);
        }
        None
    }
}

impl Clone for Params {
    fn clone(&self) -> (r: Self)
        ensures
            r@ == self@,
    {
        let mut entries: Vec<(Vec<u8>, Vec<u8>)> = Vec::new();
        let n = self.entries.len();
        let mut i: usize = 0;
        while i < n
            invariant
                0 <= i <= n,
                n == self.entries@.len(),
                entries@.len() == i,
                forall|j: int| 0 <= j < i ==> (#[trigger] entries@[j]).0@ == self.entries@[j].0@
                    && entries@[j].1@ == self.entries@[j].1@,
            decreases n - i,
        {
            let k = copy_bytes(&self.entries[i].0);
            let v = copy_bytes(&self.entries[i].1);
            entries.push((k, v));
            i = i + 1;
        }
        let r = Params { entries };
        proof {
            assert(r@ =~= self@);
        }
        r
    }
}

/// The abstract value of a named-address header payload.
pub ghost struct NamedV {
    pub name: Option<Seq<u8>>,
    pub uri: Seq<u8>,
    pub params: Seq<(Seq<u8>, Seq<u8>)>,
}

/// A named-address payload: optional display name, embedded URI, parameters.
#[derive(Debug, PartialEq)]
pub struct NamedHeader {
    pub display_name: Option<Vec<u8>>,
    pub uri: Uri,
    pub params: Params,
}

impl View for NamedHeader {
    type V = NamedV;

    open spec fn view(&self) -> NamedV {
        NamedV {
            name: match self.display_name {
                Some(n) => Some(n@),
                None => None,
            },
            uri: self.uri@,
            params: self.params@,
        }
    }
}

impl NamedHeader {
    /// A bare address: no display name, no parameters.
    pub fn new(uri: Uri) -> (r: NamedHeader)
        ensures
            r@.name == None::<Seq<u8>>,
            r@.uri == uri@,
            r@.params == Seq::<(Seq<u8>, Seq<u8>)>::empty(),
    {
        NamedHeader { display_name: None, uri, params: Params::new() }
    }
}

impl Clone for NamedHeader {
    fn clone(&self) -> (r: Self)
        ensures
            r@ == self@,
    {
        NamedHeader {
            display_name: match &self.display_name {
                Some(n) => Some(copy_bytes(n)),
                None => None,
            },
            uri: self.uri.clone(),
            params: self.params.clone(),
        }
    }
}

/// A well-formed named-address payload: the display name is made of letters
/// and spaces, the URI can be re-embedded, and the parameters are key-unique
/// with the grammar's character classes.
pub open spec fn named_wf(nv: NamedV) -> bool {
    (match nv.name {
        Some(n) => forall|i: int| 0 <= i < n.len() ==> is_name_b(#[trigger] n[i]),
        None => true,
    }) && uri_wf(nv.uri) && params_wf(nv.params)
}

/// Free text that can be re-parsed: no carriage return, and no leading
/// whitespace (the grammar strips whitespace after the colon).
pub open spec fn text_wf(v: Seq<u8>) -> bool {
    (forall|i: int| 0 <= i < v.len() ==> is_text_b(#[trigger] v[i])) && (v.len() > 0
        ==> !is_space_b(v[0]))
}

/// Number of dots in a byte string.
pub open spec fn dot_count(d: Seq<u8>) -> int
    decreases d.len(),
{
    if d.len() == 0 {
        0
    } else {
        dot_count(d.drop_last()) + if d.last() == 46 { 1int } else { 0int }
    }
}

/// A well-formed decimal literal: digits with at most one dot, at least one
/// digit.
pub open spec fn dec_wf(d: Seq<u8>) -> bool {
    d.len() >= 1 && (forall|i: int| 0 <= i < d.len() ==> is_dec_b(#[trigger] d[i])) && (exists|i: int|
        0 <= i < d.len() && is_digit_b(d[i])) && dot_count(d) <= 1
}

/// A well-formed bare word: a non-empty run of letters.
pub open spec fn word_wf(wd: Seq<u8>) -> bool {
    wd.len() >= 1 && forall|i: int| 0 <= i < wd.len() ==> is_alpha_b(#[trigger] wd[i])
}

/// The byte sequences held by a sequence of word vectors.
pub open spec fn words_view(v: Seq<Vec<u8>>) -> Seq<Seq<u8>> {
    Seq::new(v.len(), |i: int| v[i]@)
}

/// The abstract value of a header: its tag bytes and its payload, shaped by
/// the grammar that recognizes the tag.
pub ghost enum HeaderV {
    Num(Seq<u8>, u32),
    Dec(Seq<u8>, Seq<u8>),
    Text(Seq<u8>, Seq<u8>),
    Methods(Seq<u8>, Seq<Method>),
    Words(Seq<u8>, Seq<Seq<u8>>),
    Named(Seq<u8>, NamedV),
    CType(Seq<u8>, ContentType),
    Lang(Seq<u8>, Language),
    CSeqV(u32, Method),
    Other(Seq<u8>, Seq<u8>),
}

/// Whether `t` is a recognized tag whose grammar has shape `sh`.
pub open spec fn tag_shape_is(t: Seq<u8>, sh: Shape) -> bool {
    match kind_of_tag(t) {
        Some(k) => shape_of(k) == sh,
        None => false,
    }
}

/// A header value the serializer can emit and the parser will read back.
pub open spec fn hv_wf(hv: HeaderV) -> bool {
    match hv {
        HeaderV::Num(t, _) => tag_shape_is(t, Shape::Num),
        HeaderV::Dec(t, d) => tag_shape_is(t, Shape::Dec) && dec_wf(d),
        HeaderV::Text(t, v) => tag_shape_is(t, Shape::Text) && text_wf(v),
        HeaderV::Methods(t, ms) => tag_shape_is(t, Shape::Methods) && ms.len() >= 1,
        HeaderV::Words(t, ws) => tag_shape_is(t, Shape::Words) && ws.len() >= 1 && forall|i: int|
            0 <= i < ws.len() ==> word_wf(#[trigger] ws[i]),
        HeaderV::Named(t, nv) => tag_shape_is(t, Shape::Named) && named_wf(nv),
        HeaderV::CType(t, _) => tag_shape_is(t, Shape::CType),
        HeaderV::Lang(t, _) => tag_shape_is(t, Shape::Lang),
        HeaderV::CSeqV(_, _) => true,
        HeaderV::Other(_, _) => false,
    }
}

/// An unrecognized header line that the permissive parser will read back.
pub open spec fn other_wf(name: Seq<u8>, v: Seq<u8>) -> bool {
    tag_wf(name) && kind_of_tag(name) == None::<HeaderKind> && text_wf(v)
}

/// One recognized SIP header, or an unrecognized one kept verbatim
/// (`Other(name, value)`).
#[derive(Debug, PartialEq)]
pub enum Header {
    AcceptEncoding(ContentType),
    Accept(Vec<Method>),
    AcceptLanguage(Language),
    AlertInfo(Vec<u8>),
    Allow(Vec<Method>),
    AuthenticationInfo(Vec<u8>),
    Authorization(Vec<u8>),
    CallInfo(Vec<u8>),
    CallId(Vec<u8>),
    Contact(NamedHeader),
    ContentDisposition(Vec<u8>),
    ContentEncoding(ContentType),
    ContentLanguage(Language),
    ContentLength(u32),
    ContentType(ContentType),
    CSeq(u32, Method),
    Date(Vec<u8>),
    ErrorInfo(Vec<u8>),
    Expires(u32),
    From(NamedHeader),
    InReplyTo(Vec<u8>),
    MaxForwards(u32),
    MimeVersion(Vec<u8>),
    MinExpires(u32),
    Organization(Vec<u8>),
    Priority(Vec<u8>),
    ProxyAuthenticate(Vec<u8>),
    ProxyAuthorization(Vec<u8>),
    ProxyRequire(Vec<u8>),
    RecordRoute(Vec<u8>),
    ReplyTo(NamedHeader),
    Require(Vec<u8>),
    RetryAfter(Vec<u8>),
    Route(Vec<u8>),
    Server(Vec<u8>),
    Subject(Vec<u8>),
    Supported(Vec<Vec<u8>>),
    Timestamp(u32),
    To(NamedHeader),
    Unsupported(Vec<u8>),
    UserAgent(Vec<u8>),
    Via(Vec<u8>),
    Warning(Vec<u8>),
    WwwAuthenticate(Vec<u8>),
    Other(Vec<u8>, Vec<u8>),
}

impl View for Header {
    type V = HeaderV;

    open spec fn view(&self) -> HeaderV {
        match self {
            Header::AcceptEncoding(p) => HeaderV::CType(spec_tag(HeaderKind::AcceptEncoding), *p),
            Header::Accept(p) => HeaderV::Methods(spec_tag(HeaderKind::Accept), p@),
            Header::AcceptLanguage(p) => HeaderV::Lang(spec_tag(HeaderKind::AcceptLanguage), *p),
            Header::AlertInfo(p) => HeaderV::Text(spec_tag(HeaderKind::AlertInfo), p@),
            Header::Allow(p) => HeaderV::Methods(spec_tag(HeaderKind::Allow), p@),
            Header::AuthenticationInfo(p) => HeaderV::Text(spec_tag(HeaderKind::AuthenticationInfo), p@),
            Header::Authorization(p) => HeaderV::Text(spec_tag(HeaderKind::Authorization), p@),
            Header::CallInfo(p) => HeaderV::Text(spec_tag(HeaderKind::CallInfo), p@),
            Header::CallId(p) => HeaderV::Text(spec_tag(HeaderKind::CallId), p@),
            Header::Contact(p) => HeaderV::Named(spec_tag(HeaderKind::Contact), p@),
            Header::ContentDisposition(p) => HeaderV::Text(spec_tag(HeaderKind::ContentDisposition), p@),
            Header::ContentEncoding(p) => HeaderV::CType(spec_tag(HeaderKind::ContentEncoding), *p),
            Header::ContentLanguage(p) => HeaderV::Lang(spec_tag(HeaderKind::ContentLanguage), *p),
            Header::ContentLength(p) => HeaderV::Num(spec_tag(HeaderKind::ContentLength), *p),
            Header::ContentType(p) => HeaderV::CType(spec_tag(HeaderKind::ContentType), *p),
            Header::CSeq(n, m) => HeaderV::CSeqV(*n, *m),
            Header::Date(p) => HeaderV::Text(spec_tag(HeaderKind::Date), p@),
            Header::ErrorInfo(p) => HeaderV::Text(spec_tag(HeaderKind::ErrorInfo), p@),
            Header::Expires(p) => HeaderV::Num(spec_tag(HeaderKind::Expires), *p),
            Header::From(p) => HeaderV::Named(spec_tag(HeaderKind::From), p@),
            Header::InReplyTo(p) => HeaderV::Text(spec_tag(HeaderKind::InReplyTo), p@),
            Header::MaxForwards(p) => HeaderV::Num(spec_tag(HeaderKind::MaxForwards), *p),
            Header::MimeVersion(p) => HeaderV::Dec(spec_tag(HeaderKind::MimeVersion), p@),
            Header::MinExpires(p) => HeaderV::Num(spec_tag(HeaderKind::MinExpires), *p),
            Header::Organization(p) => HeaderV::Text(spec_tag(HeaderKind::Organization), p@),
            Header::Priority(p) => HeaderV::Text(spec_tag(HeaderKind::Priority), p@),
            Header::ProxyAuthenticate(p) => HeaderV::Text(spec_tag(HeaderKind::ProxyAuthenticate), p@),
            Header::ProxyAuthorization(p) => HeaderV::Text(spec_tag(HeaderKind::ProxyAuthorization), p@),
            Header::ProxyRequire(p) => HeaderV::Text(spec_tag(HeaderKind::ProxyRequire), p@),
            Header::RecordRoute(p) => HeaderV::Text(spec_tag(HeaderKind::RecordRoute), p@),
            Header::ReplyTo(p) => HeaderV::Named(spec_tag(HeaderKind::ReplyTo), p@),
            Header::Require(p) => HeaderV::Text(spec_tag(HeaderKind::Require), p@),
            Header::RetryAfter(p) => HeaderV::Text(spec_tag(HeaderKind::RetryAfter), p@),
            Header::Route(p) => HeaderV::Text(spec_tag(HeaderKind::Route), p@),
            Header::Server(p) => HeaderV::Text(spec_tag(HeaderKind::Server), p@),
            Header::Subject(p) => HeaderV::Text(spec_tag(HeaderKind::Subject), p@),
            Header::Supported(p) => HeaderV::Words(spec_tag(HeaderKind::Supported), words_view(p@)),
            Header::Timestamp(p) => HeaderV::Num(spec_tag(HeaderKind::Timestamp), *p),
            Header::To(p) => HeaderV::Named(spec_tag(HeaderKind::To), p@),
            Header::Unsupported(p) => HeaderV::Text(spec_tag(HeaderKind::Unsupported), p@),
            Header::UserAgent(p) => HeaderV::Text(spec_tag(HeaderKind::UserAgent), p@),
            Header::Via(p) => HeaderV::Text(spec_tag(HeaderKind::Via), p@),
            Header::Warning(p) => HeaderV::Text(spec_tag(HeaderKind::Warning), p@),
            Header::WwwAuthenticate(p) => HeaderV::Text(spec_tag(HeaderKind::WwwAuthenticate), p@),
            Header::Other(name, v) => HeaderV::Other(name@, v@),
        }
    }
}

impl Clone for Header {
    fn clone(&self) -> (r: Self)
        ensures
            r@ == self@,
    {
        let r = match self {
            Header::AcceptEncoding(p) => Header::AcceptEncoding(*p),
            Header::Accept(p) => Header::Accept(copy_items(p)),
            Header::AcceptLanguage(p) => Header::AcceptLanguage(*p),
            Header::AlertInfo(p) => Header::AlertInfo(copy_bytes(p)),
            Header::Allow(p) => Header::Allow(copy_items(p)),
            Header::AuthenticationInfo(p) => Header::AuthenticationInfo(copy_bytes(p)),
            Header::Authorization(p) => Header::Authorization(copy_bytes(p)),
            Header::CallInfo(p) => Header::CallInfo(copy_bytes(p)),
            Header::CallId(p) => Header::CallId(copy_bytes(p)),
            Header::Contact(p) => Header::Contact(p.clone()),
            Header::ContentDisposition(p) => Header::ContentDisposition(copy_bytes(p)),
            Header::ContentEncoding(p) => Header::ContentEncoding(*p),
            Header::ContentLanguage(p) => Header::ContentLanguage(*p),
            Header::ContentLength(p) => Header::ContentLength(*p),
            Header::ContentType(p) => Header::ContentType(*p),
            Header::CSeq(n, m) => Header::CSeq(*n, *m),
            Header::Date(p) => Header::Date(copy_bytes(p)),
            Header::ErrorInfo(p) => Header::ErrorInfo(copy_bytes(p)),
            Header::Expires(p) => Header::Expires(*p),
            Header::From(p) => Header::From(p.clone()),
            Header::InReplyTo(p) => Header::InReplyTo(copy_bytes(p)),
            Header::MaxForwards(p) => Header::MaxForwards(*p),
            Header::MimeVersion(p) => Header::MimeVersion(copy_bytes(p)),
            Header::MinExpires(p) => Header::MinExpires(*p),
            Header::Organization(p) => Header::Organization(copy_bytes(p)),
            Header::Priority(p) => Header::Priority(copy_bytes(p)),
            Header::ProxyAuthenticate(p) => Header::ProxyAuthenticate(copy_bytes(p)),
            Header::ProxyAuthorization(p) => Header::ProxyAuthorization(copy_bytes(p)),
            Header::ProxyRequire(p) => Header::ProxyRequire(copy_bytes(p)),
            Header::RecordRoute(p) => Header::RecordRoute(copy_bytes(p)),
            Header::ReplyTo(p) => Header::ReplyTo(p.clone()),
            Header::Require(p) => Header::Require(copy_bytes(p)),
            Header::RetryAfter(p) => Header::RetryAfter(copy_bytes(p)),
            Header::Route(p) => Header::Route(copy_bytes(p)),
            Header::Server(p) => Header::Server(copy_bytes(p)),
            Header::Subject(p) => Header::Subject(copy_bytes(p)),
            Header::Supported(p) => {
                let mut ws: Vec<Vec<u8>> = Vec::new();
                let n = p.len();
                let mut i: usize = 0;
                proof {
                    assert(words_view(ws@) =~= words_view(p@).subrange(0, 0));
                }
                while i < n
                    invariant
                        0 <= i <= n,
                        n == p@.len(),
                        ws@.len() == i,
                        words_view(ws@) == words_view(p@).subrange(0, i as int),
                    decreases n - i,
                {
                    let ghost wsold = ws@;
                    ws.push(copy_bytes(&p[i]));
                    proof {
                        assert forall|j: int| 0 <= j <= i implies words_view(ws@)[j] == words_view(
                            p@,
                        )[j] by {
                            assert(ws@.len() == i + 1);
                            assert(words_view(ws@)[j] == ws@[j]@);
                            assert(words_view(p@)[j] == p@[j]@);
                            if j < i {
                                assert(ws@[j] == wsold[j]);
                                assert(words_view(wsold)[j] == wsold[j]@);
                                assert(words_view(wsold)[j] == words_view(p@).subrange(
                                    0,
                                    i as int,
                                )[j]);
                            } else {
                                assert(ws@[j]@ == p@[j]@);
                            }
                        }
                        assert(words_view(ws@) =~= words_view(p@).subrange(0, i + 1));
                    }
                    i = i + 1;
                }
                proof {
                    assert(words_view(ws@) =~= words_view(p@));
                }
                Header::Supported(ws)
            },
            Header::Timestamp(p) => Header::Timestamp(*p),
            Header::To(p) => Header::To(p.clone()),
            Header::Unsupported(p) => Header::Unsupported(copy_bytes(p)),
            Header::UserAgent(p) => Header::UserAgent(copy_bytes(p)),
            Header::Via(p) => Header::Via(copy_bytes(p)),
            Header::Warning(p) => Header::Warning(copy_bytes(p)),
            Header::WwwAuthenticate(p) => Header::WwwAuthenticate(copy_bytes(p)),
            Header::Other(name, v) => Header::Other(copy_bytes(name), copy_bytes(v)),
        };
        r
    }
}

} // verus!
