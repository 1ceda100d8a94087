//! The ordered header container: wire order is kept verbatim, duplicates are
//! legal, and the typed accessors return the first matching entry.
use vstd::prelude::*;
use crate::model::{Header, HeaderV};
use crate::tags::{HeaderKind, spec_tag, kind_of_tag, lemma_kind_of_self};

verus! {

/// The recognized kind a header value belongs to, if any.
pub open spec fn spec_kind_of_hv(hv: HeaderV) -> Option<HeaderKind> {
    match hv {
        HeaderV::Num(t, _) => kind_of_tag(t),
        HeaderV::Dec(t, _) => kind_of_tag(t),
        HeaderV::Text(t, _) => kind_of_tag(t),
        HeaderV::Methods(t, _) => kind_of_tag(t),
        HeaderV::Words(t, _) => kind_of_tag(t),
        HeaderV::Named(t, _) => kind_of_tag(t),
        HeaderV::CType(t, _) => kind_of_tag(t),
        HeaderV::Lang(t, _) => kind_of_tag(t),
        HeaderV::CSeqV(_, _) => Some(HeaderKind::CSeq),
        HeaderV::Other(_, _) => None,
    }
}

/// Exec twin of `spec_kind_of_hv`: the kind a header was constructed as.
pub fn kind_of_header(h: &Header) -> (r: Option<HeaderKind>)
    ensures
        r == spec_kind_of_hv(h@),
{
    match h {
        Header::AcceptEncoding(_) => {
            proof {
                lemma_kind_of_self(HeaderKind::AcceptEncoding);
            }
            Some(HeaderKind::AcceptEncoding)
        },
        Header::Accept(_) => {
            proof {
                lemma_kind_of_self(HeaderKind::Accept);
            }
            Some(HeaderKind::Accept)
        },
        Header::AcceptLanguage(_) => {
            proof {
                lemma_kind_of_self(HeaderKind::AcceptLanguage);
            }
            Some(HeaderKind::AcceptLanguage)
        },
        Header::AlertInfo(_) => {
            proof {
                lemma_kind_of_self(HeaderKind::AlertInfo);
            }
            Some(HeaderKind::AlertInfo)
        },
        Header::Allow(_) => {
            proof {
                lemma_kind_of_self(HeaderKind::Allow);
            }
            Some(HeaderKind::Allow)
        },
        Header::AuthenticationInfo(_) => {
            proof {
                lemma_kind_of_self(HeaderKind::AuthenticationInfo);
            }
            Some(HeaderKind::AuthenticationInfo)
        },
        Header::Authorization(_) => {
            proof {
                lemma_kind_of_self(HeaderKind::Authorization);
            }
            Some(HeaderKind::Authorization)
        },
        Header::CallInfo(_) => {
            proof {
                lemma_kind_of_self(HeaderKind::CallInfo);
            }
            Some(HeaderKind::CallInfo)
        },
        Header::CallId(_) => {
            proof {
                lemma_kind_of_self(HeaderKind::CallId);
            }
            Some(HeaderKind::CallId)
        },
        Header::Contact(_) => {
            proof {
                lemma_kind_of_self(HeaderKind::Contact);
            }
            Some(HeaderKind::Contact)
        },
        Header::ContentDisposition(_) => {
            proof {
                lemma_kind_of_self(HeaderKind::ContentDisposition);
            }
            Some(HeaderKind::ContentDisposition)
        },
        Header::ContentEncoding(_) => {
            proof {
                lemma_kind_of_self(HeaderKind::ContentEncoding);
            }
            Some(HeaderKind::ContentEncoding)
        },
        Header::ContentLanguage(_) => {
            proof {
                lemma_kind_of_self(HeaderKind::ContentLanguage);
            }
            Some(HeaderKind::ContentLanguage)
        },
        Header::ContentLength(_) => {
            proof {
                lemma_kind_of_self(HeaderKind::ContentLength);
            }
            Some(HeaderKind::ContentLength)
        },
        Header::ContentType(_) => {
            proof {
                lemma_kind_of_self(HeaderKind::ContentType);
            }
            Some(HeaderKind::ContentType)
        },
        Header::CSeq(_, _) => Some(HeaderKind::CSeq),
        Header::Date(_) => {
            proof {
                lemma_kind_of_self(HeaderKind::Date);
            }
            Some(HeaderKind::Date)
        },
        Header::ErrorInfo(_) => {
            proof {
                lemma_kind_of_self(HeaderKind::ErrorInfo);
            }
            Some(HeaderKind::ErrorInfo)
        },
        Header::Expires(_) => {
            proof {
                lemma_kind_of_self(HeaderKind::Expires);
            }
            Some(HeaderKind::Expires)
        },
        Header::From(_) => {
            proof {
                lemma_kind_of_self(HeaderKind::From);
            }
            Some(HeaderKind::From)
        },
        Header::InReplyTo(_) => {
            proof {
                lemma_kind_of_self(HeaderKind::InReplyTo);
            }
            Some(HeaderKind::InReplyTo)
        },
        Header::MaxForwards(_) => {
            proof {
                lemma_kind_of_self(HeaderKind::MaxForwards);
            }
            Some(HeaderKind::MaxForwards)
        },
        Header::MimeVersion(_) => {
            proof {
                lemma_kind_of_self(HeaderKind::MimeVersion);
            }
            Some(HeaderKind::MimeVersion)
        },
        Header::MinExpires(_) => {
            proof {
                lemma_kind_of_self(HeaderKind::MinExpires);
            }
            Some(HeaderKind::MinExpires)
        },
        Header::Organization(_) => {
            proof {
                lemma_kind_of_self(HeaderKind::Organization);
            }
            Some(HeaderKind::Organization)
        },
        Header::Priority(_) => {
            proof {
                lemma_kind_of_self(HeaderKind::Priority);
            }
            Some(HeaderKind::Priority)
        },
        Header::ProxyAuthenticate(_) => {
            proof {
                lemma_kind_of_self(HeaderKind::ProxyAuthenticate);
            }
            Some(HeaderKind::ProxyAuthenticate)
        },
        Header::ProxyAuthorization(_) => {
            proof {
                lemma_kind_of_self(HeaderKind::ProxyAuthorization);
            }
            Some(HeaderKind::ProxyAuthorization)
        },
        Header::ProxyRequire(_) => {
            proof {
                lemma_kind_of_self(HeaderKind::ProxyRequire);
            }
            Some(HeaderKind::ProxyRequire)
        },
        Header::RecordRoute(_) => {
            proof {
                lemma_kind_of_self(HeaderKind::RecordRoute);
            }
            Some(HeaderKind::RecordRoute)
        },
        Header::ReplyTo(_) => {
            proof {
                lemma_kind_of_self(HeaderKind::ReplyTo);
            }
            Some(HeaderKind::ReplyTo)
        },
        Header::Require(_) => {
            proof {
                lemma_kind_of_self(HeaderKind::Require);
            }
            Some(HeaderKind::Require)
        },
        Header::RetryAfter(_) => {
            proof {
                lemma_kind_of_self(HeaderKind::RetryAfter);
            }
            Some(HeaderKind::RetryAfter)
        },
        Header::Route(_) => {
            proof {
                lemma_kind_of_self(HeaderKind::Route);
            }
            Some(HeaderKind::Route)
        },
        Header::Server(_) => {
            proof {
                lemma_kind_of_self(HeaderKind::Server);
            }
            Some(HeaderKind::Server)
        },
        Header::Subject(_) => {
            proof {
                lemma_kind_of_self(HeaderKind::Subject);
            }
            Some(HeaderKind::Subject)
        },
        Header::Supported(_) => {
            proof {
                lemma_kind_of_self(HeaderKind::Supported);
            }
            Some(HeaderKind::Supported)
        },
        Header::Timestamp(_) => {
            proof {
                lemma_kind_of_self(HeaderKind::Timestamp);
            }
            Some(HeaderKind::Timestamp)
        },
        Header::To(_) => {
            proof {
                lemma_kind_of_self(HeaderKind::To);
            }
            Some(HeaderKind::To)
        },
        Header::Unsupported(_) => {
            proof {
                lemma_kind_of_self(HeaderKind::Unsupported);
            }
            Some(HeaderKind::Unsupported)
        },
        Header::UserAgent(_) => {
            proof {
                lemma_kind_of_self(HeaderKind::UserAgent);
            }
            Some(HeaderKind::UserAgent)
        },
        Header::Via(_) => {
            proof {
                lemma_kind_of_self(HeaderKind::Via);
            }
            Some(HeaderKind::Via)
        },
        Header::Warning(_) => {
            proof {
                lemma_kind_of_self(HeaderKind::Warning);
            }
            Some(HeaderKind::Warning)
        },
        Header::WwwAuthenticate(_) => {
            proof {
                lemma_kind_of_self(HeaderKind::WwwAuthenticate);
            }
            Some(HeaderKind::WwwAuthenticate)
        },
        Header::Other(_, _) => None,
    }
}

/// The abstract values of a header list, in order.
pub open spec fn hlist_view(s: Seq<Header>) -> Seq<HeaderV> {
    Seq::new(s.len(), |i: int| s[i]@)
}

/// The first entry of kind `k`, scanning from the front.
pub open spec fn first_of_kind(s: Seq<HeaderV>, k: HeaderKind) -> Option<HeaderV>
    decreases s.len(),
{
    if s.len() == 0 {
        None
    } else if spec_kind_of_hv(s[0]) == Some(k) {
        Some(s[0])
    } else {
        first_of_kind(s.drop_first(), k)
    }
}

/// The first-match law of the typed accessors: when `first_of_kind` returns
/// an entry there is a position holding exactly that entry, of the requested
/// kind, with no earlier position of that kind; and when it returns nothing,
/// no position of that kind exists at all.  In particular, of two entries of
/// the same kind (two `Via` headers, say) the earlier one is returned.
pub proof fn lemma_first_of_kind(s: Seq<HeaderV>, k: HeaderKind)
    ensures
        match first_of_kind(s, k) {
            Some(hv) => exists|j: int|
                0 <= j < s.len() && s[j] == hv && spec_kind_of_hv(#[trigger] s[j]) == Some(k)
                    && forall|i: int| 0 <= i < j ==> spec_kind_of_hv(#[trigger] s[i]) != Some(k),
            None => forall|i: int|
                0 <= i < s.len() ==> spec_kind_of_hv(#[trigger] s[i]) != Some(k),
        },
    decreases s.len(),
{
    if s.len() > 0 && spec_kind_of_hv(s[0]) != Some(k) {
        lemma_first_of_kind(s.drop_first(), k);
        match first_of_kind(s.drop_first(), k) {
            Some(hv) => {
                let j0 = choose|j: int|
                    0 <= j < s.drop_first().len() && s.drop_first()[j] == hv && spec_kind_of_hv(
                        #[trigger] s.drop_first()[j],
                    ) == Some(k) && forall|i: int|
                        0 <= i < j ==> spec_kind_of_hv(#[trigger] s.drop_first()[i]) != Some(k);
                assert forall|i: int| 0 <= i < j0 + 1 implies spec_kind_of_hv(#[trigger] s[i])
                    != Some(k) by {
                    if i >= 1 {
                        assert(s[i] == s.drop_first()[i - 1]);
                    }
                }
                assert(s[j0 + 1] == s.drop_first()[j0]);
            },
            None => {
                assert forall|i: int| 0 <= i < s.len() implies spec_kind_of_hv(#[trigger] s[i])
                    != Some(k) by {
                    if i >= 1 {
                        assert(s[i] == s.drop_first()[i - 1]);
                    }
                }
            },
        }
    }
}

/// An ordered list of headers, kept in wire order; duplicates are kept.
#[derive(Debug, PartialEq, Clone)]
pub struct Headers(pub Vec<Header>);

impl View for Headers {
    type V = Seq<HeaderV>;

    open spec fn view(&self) -> Seq<HeaderV> {
        hlist_view(self.0@)
    }
}

impl Headers {
    /// The empty header list.
    pub fn new() -> (r: Headers)
        ensures
            r@ == Seq::<HeaderV>::empty(),
    {
        let r = Headers(Vec::new());
        proof {
            assert(r@ =~= Seq::<HeaderV>::empty());
        }
        r
    }

    /// Number of headers held.
    pub fn len(&self) -> (r: usize)
        ensures
            r == self@.len(),
    {
        self.0.len()
    }

    /// Read the header at `i`.
    pub fn get(&self, i: usize) -> (r: &Header)
        requires
            i < self@.len(),
        ensures
            r@ == self@[i as int],
    {
        &self.0[i]
    }

    /// Push a new header onto the end, keeping wire order.
    pub fn push(&mut self, h: Header)
        ensures
            final(self)@ == old(self)@.push(h@),
    {
        self.0.push(h);
        proof {
            assert(final(self)@ =~= old(self)@.push(h@));
        }
    }

    /// Append a list of headers onto the end, keeping their order.
    pub fn extend(&mut self, i: Vec<Header>)
        ensures
            final(self)@ == old(self)@ + hlist_view(i@),
    {
        let ghost iv = i@;
        let mut i = i;
        self.0.append(&mut i);
        proof {
            assert(final(self)@ =~= old(self)@ + hlist_view(iv));
        }
    }

    /// The first header of kind `k`, as a fresh copy, if one is present.
    pub fn find_first(&self, k: HeaderKind) -> (r: Option<Header>)
        ensures
            match r {
                Some(h) => first_of_kind(self@, k) == Some(h@) && spec_kind_of_hv(h@) == Some(k),
                None => first_of_kind(self@, k) == None::<HeaderV>,
            },
    {
        let n = self.0.len();
        let mut i: usize = 0;
        while i < n
            invariant
                0 <= i <= n,
                n == self.0@.len(),
                forall|j: int| 0 <= j < i ==> spec_kind_of_hv(#[trigger] self@[j]) != Some(k),
            decreases n - i,
        {
            let found = match kind_of_header(&self.0[i]) {
                Some(kk) => kk == k,
                None => false,
            };
            if found {
                let h = self.0[i].clone();
                proof {
                    lemma_first_skip(self@, k, i as int);
                }
                return Some(h);
            }
            i = i + 1;
        }
        proof {
            lemma_first_none(self@, k);
        }
        None
    }

    /// The first `Expires` header, if one is present.
    pub fn expires(&self) -> (r: Option<Header>)
        ensures
            match r {
                Some(h) => first_of_kind(self@, HeaderKind::Expires) == Some(h@),
                None => first_of_kind(self@, HeaderKind::Expires) == None::<HeaderV>,
            },
    {
        self.find_first(HeaderKind::Expires)
    }

    /// The first `CSeq` header, if one is present.
    pub fn cseq(&self) -> (r: Option<Header>)
        ensures
            match r {
                Some(h) => first_of_kind(self@, HeaderKind::CSeq) == Some(h@),
                None => first_of_kind(self@, HeaderKind::CSeq) == None::<HeaderV>,
            },
    {
        self.find_first(HeaderKind::CSeq)
    }

    /// The first `From` header, if one is present.
    pub fn from(&self) -> (r: Option<Header>)
        ensures
            match r {
                Some(h) => first_of_kind(self@, HeaderKind::From) == Some(h@),
                None => first_of_kind(self@, HeaderKind::From) == None::<HeaderV>,
            },
    {
        self.find_first(HeaderKind::From)
    }

    /// The first `To` header, if one is present.
    pub fn to(&self) -> (r: Option<Header>)
        ensures
            match r {
                Some(h) => first_of_kind(self@, HeaderKind::To) == Some(h@),
                None => first_of_kind(self@, HeaderKind::To) == None::<HeaderV>,
            },
    {
        self.find_first(HeaderKind::To)
    }

    /// The first `Contact` header, if one is present.
    pub fn contact(&self) -> (r: Option<Header>)
        ensures
            match r {
                Some(h) => first_of_kind(self@, HeaderKind::Contact) == Some(h@),
                None => first_of_kind(self@, HeaderKind::Contact) == None::<HeaderV>,
            },
    {
        self.find_first(HeaderKind::Contact)
    }

    /// The first `CallId` header, if one is present.
    pub fn call_id(&self) -> (r: Option<Header>)
        ensures
            match r {
                Some(h) => first_of_kind(self@, HeaderKind::CallId) == Some(h@),
                None => first_of_kind(self@, HeaderKind::CallId) == None::<HeaderV>,
            },
    {
        self.find_first(HeaderKind::CallId)
    }

    /// The first `Via` header, if one is present.
    pub fn via(&self) -> (r: Option<Header>)
        ensures
            match r {
                Some(h) => first_of_kind(self@, HeaderKind::Via) == Some(h@),
                None => first_of_kind(self@, HeaderKind::Via) == None::<HeaderV>,
            },
    {
        self.find_first(HeaderKind::Via)
    }
}

/// With no entry of kind `k` before `j`, and one at `j`, the scan stops
/// exactly at `j`.
proof fn lemma_first_skip(s: Seq<HeaderV>, k: HeaderKind, j: int)
    requires
        0 <= j < s.len(),
        spec_kind_of_hv(s[j]) == Some(k),
        forall|i: int| 0 <= i < j ==> spec_kind_of_hv(#[trigger] s[i]) != Some(k),
    ensures
        first_of_kind(s, k) == Some(s[j]),
    decreases j,
{
    if j > 0 {
        assert(s.drop_first()[j - 1] == s[j]);
        assert forall|i: int| 0 <= i < j - 1 implies spec_kind_of_hv(
            #[trigger] s.drop_first()[i],
        ) != Some(k) by {
            assert(s.drop_first()[i] == s[i + 1]);
        }
        lemma_first_skip(s.drop_first(), k, j - 1);
    }
}

/// With no entry of kind `k` at all, the scan finds nothing.
proof fn lemma_first_none(s: Seq<HeaderV>, k: HeaderKind)
    requires
        forall|i: int| 0 <= i < s.len() ==> spec_kind_of_hv(#[trigger] s[i]) != Some(k),
    ensures
        first_of_kind(s, k) == None::<HeaderV>,
    decreases s.len(),
{
    if s.len() > 0 {
        assert forall|i: int| 0 <= i < s.drop_first().len() implies spec_kind_of_hv(
            #[trigger] s.drop_first()[i],
        ) != Some(k) by {
            assert(s.drop_first()[i] == s[i + 1]);
        }
        lemma_first_none(s.drop_first(), k);
    }
}

} // verus!
