//! The recognized header tags: one kind per grammar entry of the dispatcher,
//! the tag literal of each kind, and the payload shape its grammar produces.
use vstd::prelude::*;

verus! {

/// One recognized header tag.
#[derive(Clone, Copy, Debug, PartialEq, Eq, Structural)]
pub enum HeaderKind {
    AcceptEncoding,
    Accept,
    AcceptLanguage,
    AlertInfo,
    Allow,
    AuthenticationInfo,
    Authorization,
    CallInfo,
    CallId,
    Contact,
    ContentDisposition,
    ContentEncoding,
    ContentLanguage,
    ContentLength,
    ContentType,
    CSeq,
    Date,
    ErrorInfo,
    Expires,
    From,
    InReplyTo,
    MaxForwards,
    MimeVersion,
    MinExpires,
    Organization,
    Priority,
    ProxyAuthenticate,
    ProxyAuthorization,
    ProxyRequire,
    RecordRoute,
    ReplyTo,
    Require,
    RetryAfter,
    Route,
    Server,
    Subject,
    Supported,
    Timestamp,
    To,
    Unsupported,
    UserAgent,
    Via,
    Warning,
    WwwAuthenticate,
}

/// The payload shape of a header grammar: unsigned number, decimal literal,
/// free text, method array, word array, named address, content-type token,
/// language token, or the sequence-number/method pair.
#[derive(Clone, Copy, Debug, PartialEq, Eq, Structural)]
pub enum Shape {
    Num,
    Dec,
    Text,
    Methods,
    Words,
    Named,
    CType,
    Lang,
    CSeqS,
}

/// The tag literal of a kind, as wire bytes.
pub open spec fn spec_tag(k: HeaderKind) -> Seq<u8> {
    match k {
        HeaderKind::AcceptEncoding => seq![65u8, 99u8, 99u8, 101u8, 112u8, 116u8, 45u8, 69u8, 110u8, 99u8, 111u8, 100u8, 105u8, 110u8, 103u8],
        HeaderKind::Accept => seq![65u8, 99u8, 99u8, 101u8, 112u8, 116u8],
        HeaderKind::AcceptLanguage => seq![65u8, 99u8, 99u8, 101u8, 112u8, 116u8, 45u8, 76u8, 97u8, 110u8, 103u8, 117u8, 97u8, 103u8, 101u8],
        HeaderKind::AlertInfo => seq![65u8, 108u8, 101u8, 114u8, 116u8, 45u8, 73u8, 110u8, 102u8, 111u8],
        HeaderKind::Allow => seq![65u8, 108u8, 108u8, 111u8, 119u8],
        HeaderKind::AuthenticationInfo => seq![65u8, 117u8, 116u8, 104u8, 101u8, 110u8, 116u8, 105u8, 99u8, 97u8, 116u8, 105u8, 111u8, 110u8, 45u8, 73u8, 110u8, 102u8, 111u8],
        HeaderKind::Authorization => seq![65u8, 117u8, 116u8, 104u8, 111u8, 114u8, 105u8, 122u8, 97u8, 116u8, 105u8, 111u8, 110u8],
        HeaderKind::CallInfo => seq![67u8, 97u8, 108u8, 108u8, 45u8, 73u8, 110u8, 102u8, 111u8],
        HeaderKind::CallId => seq![67u8, 97u8, 108u8, 108u8, 45u8, 73u8, 68u8],
        HeaderKind::Contact => seq![67u8, 111u8, 110u8, 116u8, 97u8, 99u8, 116u8],
        HeaderKind::ContentDisposition => seq![67u8, 111u8, 110u8, 116u8, 101u8, 110u8, 116u8, 45u8, 68u8, 105u8, 115u8, 112u8, 111u8, 115u8, 105u8, 116u8, 105u8, 111u8, 110u8],
        HeaderKind::ContentEncoding => seq![67u8, 111u8, 110u8, 116u8, 101u8, 110u8, 116u8, 45u8, 69u8, 110u8, 99u8, 111u8, 100u8, 105u8, 110u8, 103u8],
        HeaderKind::ContentLanguage => seq![67u8, 111u8, 110u8, 116u8, 101u8, 110u8, 116u8, 45u8, 76u8, 97u8, 110u8, 103u8, 117u8, 97u8, 103u8, 101u8],
        HeaderKind::ContentLength => seq![67u8, 111u8, 110u8, 116u8, 101u8, 110u8, 116u8, 45u8, 76u8, 101u8, 110u8, 103u8, 116u8, 104u8],
        HeaderKind::ContentType => seq![67u8, 111u8, 110u8, 116u8, 101u8, 110u8, 116u8, 45u8, 84u8, 121u8, 112u8, 101u8],
        HeaderKind::CSeq => seq![67u8, 83u8, 101u8, 113u8],
        HeaderKind::Date => seq![68u8, 97u8, 116u8, 101u8],
        HeaderKind::ErrorInfo => seq![69u8, 114u8, 114u8, 111u8, 114u8, 45u8, 73u8, 110u8, 102u8, 111u8],
        HeaderKind::Expires => seq![69u8, 120u8, 112u8, 105u8, 114u8, 101u8, 115u8],
        HeaderKind::From => seq![70u8, 114u8, 111u8, 109u8],
        HeaderKind::InReplyTo => seq![73u8, 110u8, 45u8, 82u8, 101u8, 112u8, 108u8, 121u8, 45u8, 84u8, 111u8],
        HeaderKind::MaxForwards => seq![77u8, 97u8, 120u8, 45u8, 70u8, 111u8, 114u8, 119u8, 97u8, 114u8, 100u8, 115u8],
        HeaderKind::MimeVersion => seq![77u8, 73u8, 77u8, 69u8, 45u8, 86u8, 101u8, 114u8, 115u8, 105u8, 111u8, 110u8],
        HeaderKind::MinExpires => seq![77u8, 105u8, 110u8, 45u8, 69u8, 120u8, 112u8, 105u8, 114u8, 101u8, 115u8],
        HeaderKind::Organization => seq![79u8, 114u8, 103u8, 97u8, 110u8, 105u8, 122u8, 97u8, 116u8, 105u8, 111u8, 110u8],
        HeaderKind::Priority => seq![80u8, 114u8, 105u8, 111u8, 114u8, 105u8, 116u8, 121u8],
        HeaderKind::ProxyAuthenticate => seq![80u8, 114u8, 111u8, 120u8, 121u8, 45u8, 65u8, 117u8, 116u8, 104u8, 101u8, 110u8, 116u8, 105u8, 99u8, 97u8, 116u8, 101u8],
        HeaderKind::ProxyAuthorization => seq![80u8, 114u8, 111u8, 120u8, 121u8, 45u8, 65u8, 117u8, 116u8, 104u8, 111u8, 114u8, 105u8, 122u8, 97u8, 116u8, 105u8, 111u8, 110u8],
        HeaderKind::ProxyRequire => seq![80u8, 114u8, 111u8, 120u8, 121u8, 45u8, 82u8, 101u8, 113u8, 117u8, 105u8, 114u8, 101u8],
        HeaderKind::RecordRoute => seq![82u8, 101u8, 99u8, 111u8, 114u8, 100u8, 45u8, 82u8, 111u8, 117u8, 116u8, 101u8],
        HeaderKind::ReplyTo => seq![82u8, 101u8, 112u8, 108u8, 121u8, 45u8, 84u8, 111u8],
        HeaderKind::Require => seq![82u8, 101u8, 113u8, 117u8, 105u8, 114u8, 101u8],
        HeaderKind::RetryAfter => seq![82u8, 101u8, 116u8, 114u8, 121u8, 45u8, 65u8, 102u8, 116u8, 101u8, 114u8],
        HeaderKind::Route => seq![82u8, 111u8, 117u8, 116u8, 101u8],
        HeaderKind::Server => seq![83u8, 101u8, 114u8, 118u8, 101u8, 114u8],
        HeaderKind::Subject => seq![83u8, 117u8, 98u8, 106u8, 101u8, 99u8, 116u8],
        HeaderKind::Supported => seq![83u8, 117u8, 112u8, 112u8, 111u8, 114u8, 116u8, 101u8, 100u8],
        HeaderKind::Timestamp => seq![84u8, 105u8, 109u8, 101u8, 115u8, 116u8, 97u8, 109u8, 112u8],
        HeaderKind::To => seq![84u8, 111u8],
        HeaderKind::Unsupported => seq![85u8, 110u8, 115u8, 117u8, 112u8, 112u8, 111u8, 114u8, 116u8, 101u8, 100u8],
        HeaderKind::UserAgent => seq![85u8, 115u8, 101u8, 114u8, 45u8, 65u8, 103u8, 101u8, 110u8, 116u8],
        HeaderKind::Via => seq![86u8, 105u8, 97u8],
        HeaderKind::Warning => seq![87u8, 97u8, 114u8, 110u8, 105u8, 110u8, 103u8],
        HeaderKind::WwwAuthenticate => seq![87u8, 87u8, 87u8, 45u8, 65u8, 117u8, 116u8, 104u8, 101u8, 110u8, 116u8, 105u8, 99u8, 97u8, 116u8, 101u8],
    }
}

/// The payload shape of a kind's grammar.
pub open spec fn shape_of(k: HeaderKind) -> Shape {
    match k {
        HeaderKind::AcceptEncoding => Shape::CType,
        HeaderKind::Accept => Shape::Methods,
        HeaderKind::AcceptLanguage => Shape::Lang,
        HeaderKind::AlertInfo => Shape::Text,
        HeaderKind::Allow => Shape::Methods,
        HeaderKind::AuthenticationInfo => Shape::Text,
        HeaderKind::Authorization => Shape::Text,
        HeaderKind::CallInfo => Shape::Text,
        HeaderKind::CallId => Shape::Text,
        HeaderKind::Contact => Shape::Named,
        HeaderKind::ContentDisposition => Shape::Text,
        HeaderKind::ContentEncoding => Shape::CType,
        HeaderKind::ContentLanguage => Shape::Lang,
        HeaderKind::ContentLength => Shape::Num,
        HeaderKind::ContentType => Shape::CType,
        HeaderKind::CSeq => Shape::CSeqS,
        HeaderKind::Date => Shape::Text,
        HeaderKind::ErrorInfo => Shape::Text,
        HeaderKind::Expires => Shape::Num,
        HeaderKind::From => Shape::Named,
        HeaderKind::InReplyTo => Shape::Text,
        HeaderKind::MaxForwards => Shape::Num,
        HeaderKind::MimeVersion => Shape::Dec,
        HeaderKind::MinExpires => Shape::Num,
        HeaderKind::Organization => Shape::Text,
        HeaderKind::Priority => Shape::Text,
        HeaderKind::ProxyAuthenticate => Shape::Text,
        HeaderKind::ProxyAuthorization => Shape::Text,
        HeaderKind::ProxyRequire => Shape::Text,
        HeaderKind::RecordRoute => Shape::Text,
        HeaderKind::ReplyTo => Shape::Named,
        HeaderKind::Require => Shape::Text,
        HeaderKind::RetryAfter => Shape::Text,
        HeaderKind::Route => Shape::Text,
        HeaderKind::Server => Shape::Text,
        HeaderKind::Subject => Shape::Text,
        HeaderKind::Supported => Shape::Words,
        HeaderKind::Timestamp => Shape::Num,
        HeaderKind::To => Shape::Named,
        HeaderKind::Unsupported => Shape::Text,
        HeaderKind::UserAgent => Shape::Text,
        HeaderKind::Via => Shape::Text,
        HeaderKind::Warning => Shape::Text,
        HeaderKind::WwwAuthenticate => Shape::Text,
    }
}

/// Exec twin of `shape_of`.
pub fn kind_shape(k: HeaderKind) -> (r: Shape)
    ensures
        r == shape_of(k),
{
    match k {
        HeaderKind::AcceptEncoding => Shape::CType,
        HeaderKind::Accept => Shape::Methods,
        HeaderKind::AcceptLanguage => Shape::Lang,
        HeaderKind::AlertInfo => Shape::Text,
        HeaderKind::Allow => Shape::Methods,
        HeaderKind::AuthenticationInfo => Shape::Text,
        HeaderKind::Authorization => Shape::Text,
        HeaderKind::CallInfo => Shape::Text,
        HeaderKind::CallId => Shape::Text,
        HeaderKind::Contact => Shape::Named,
        HeaderKind::ContentDisposition => Shape::Text,
        HeaderKind::ContentEncoding => Shape::CType,
        HeaderKind::ContentLanguage => Shape::Lang,
        HeaderKind::ContentLength => Shape::Num,
        HeaderKind::ContentType => Shape::CType,
        HeaderKind::CSeq => Shape::CSeqS,
        HeaderKind::Date => Shape::Text,
        HeaderKind::ErrorInfo => Shape::Text,
        HeaderKind::Expires => Shape::Num,
        HeaderKind::From => Shape::Named,
        HeaderKind::InReplyTo => Shape::Text,
        HeaderKind::MaxForwards => Shape::Num,
        HeaderKind::MimeVersion => Shape::Dec,
        HeaderKind::MinExpires => Shape::Num,
        HeaderKind::Organization => Shape::Text,
        HeaderKind::Priority => Shape::Text,
        HeaderKind::ProxyAuthenticate => Shape::Text,
        HeaderKind::ProxyAuthorization => Shape::Text,
        HeaderKind::ProxyRequire => Shape::Text,
        HeaderKind::RecordRoute => Shape::Text,
        HeaderKind::ReplyTo => Shape::Named,
        HeaderKind::Require => Shape::Text,
        HeaderKind::RetryAfter => Shape::Text,
        HeaderKind::Route => Shape::Text,
        HeaderKind::Server => Shape::Text,
        HeaderKind::Subject => Shape::Text,
        HeaderKind::Supported => Shape::Words,
        HeaderKind::Timestamp => Shape::Num,
        HeaderKind::To => Shape::Named,
        HeaderKind::Unsupported => Shape::Text,
        HeaderKind::UserAgent => Shape::Text,
        HeaderKind::Via => Shape::Text,
        HeaderKind::Warning => Shape::Text,
        HeaderKind::WwwAuthenticate => Shape::Text,
    }
}

/// The tag literal of a kind, built as an owned byte vector.
pub fn tag_bytes(k: HeaderKind) -> (r: Vec<u8>)
    ensures
        r@ == spec_tag(k),
{
    let mut v: Vec<u8> = Vec::new();
    match k {
        HeaderKind::AcceptEncoding => {
            v.push(65); v.push(99); v.push(99); v.push(101); v.push(112); v.push(116); v.push(45); v.push(69); v.push(110); v.push(99); v.push(111); v.push(100); v.push(105); v.push(110); v.push(103);
        },
        HeaderKind::Accept => {
            v.push(65); v.push(99); v.push(99); v.push(101); v.push(112); v.push(116);
        },
        HeaderKind::AcceptLanguage => {
            v.push(65); v.push(99); v.push(99); v.push(101); v.push(112); v.push(116); v.push(45); v.push(76); v.push(97); v.push(110); v.push(103); v.push(117); v.push(97); v.push(103); v.push(101);
        },
        HeaderKind::AlertInfo => {
            v.push(65); v.push(108); v.push(101); v.push(114); v.push(116); v.push(45); v.push(73); v.push(110); v.push(102); v.push(111);
        },
        HeaderKind::Allow => {
            v.push(65); v.push(108); v.push(108); v.push(111); v.push(119);
        },
        HeaderKind::AuthenticationInfo => {
            v.push(65); v.push(117); v.push(116); v.push(104); v.push(101); v.push(110); v.push(116); v.push(105); v.push(99); v.push(97); v.push(116); v.push(105); v.push(111); v.push(110); v.push(45); v.push(73); v.push(110); v.push(102); v.push(111);
        },
        HeaderKind::Authorization => {
            v.push(65); v.push(117); v.push(116); v.push(104); v.push(111); v.push(114); v.push(105); v.push(122); v.push(97); v.push(116); v.push(105); v.push(111); v.push(110);
        },
        HeaderKind::CallInfo => {
            v.push(67); v.push(97); v.push(108); v.push(108); v.push(45); v.push(73); v.push(110); v.push(102); v.push(111);
        },
        HeaderKind::CallId => {
            v.push(67); v.push(97); v.push(108); v.push(108); v.push(45); v.push(73); v.push(68);
        },
        HeaderKind::Contact => {
            v.push(67); v.push(111); v.push(110); v.push(116); v.push(97); v.push(99); v.push(116);
        },
        HeaderKind::ContentDisposition => {
            v.push(67); v.push(111); v.push(110); v.push(116); v.push(101); v.push(110); v.push(116); v.push(45); v.push(68); v.push(105); v.push(115); v.push(112); v.push(111); v.push(115); v.push(105); v.push(116); v.push(105); v.push(111); v.push(110);
        },
        HeaderKind::ContentEncoding => {
            v.push(67); v.push(111); v.push(110); v.push(116); v.push(101); v.push(110); v.push(116); v.push(45); v.push(69); v.push(110); v.push(99); v.push(111); v.push(100); v.push(105); v.push(110); v.push(103);
        },
        HeaderKind::ContentLanguage => {
            v.push(67); v.push(111); v.push(110); v.push(116); v.push(101); v.push(110); v.push(116); v.push(45); v.push(76); v.push(97); v.push(110); v.push(103); v.push(117); v.push(97); v.push(103); v.push(101);
        },
        HeaderKind::ContentLength => {
            v.push(67); v.push(111); v.push(110); v.push(116); v.push(101); v.push(110); v.push(116); v.push(45); v.push(76); v.push(101); v.push(110); v.push(103); v.push(116); v.push(104);
        },
        HeaderKind::ContentType => {
            v.push(67); v.push(111); v.push(110); v.push(116); v.push(101); v.push(110); v.push(116); v.push(45); v.push(84); v.push(121); v.push(112); v.push(101);
        },
        HeaderKind::CSeq => {
            v.push(67); v.push(83); v.push(101); v.push(113);
        },
        HeaderKind::Date => {
            v.push(68); v.push(97); v.push(116); v.push(101);
        },
        HeaderKind::ErrorInfo => {
            v.push(69); v.push(114); v.push(114); v.push(111); v.push(114); v.push(45); v.push(73); v.push(110); v.push(102); v.push(111);
        },
        HeaderKind::Expires => {
            v.push(69); v.push(120); v.push(112); v.push(105); v.push(114); v.push(101); v.push(115);
        },
        HeaderKind::From => {
            v.push(70); v.push(114); v.push(111); v.push(109);
        },
        HeaderKind::InReplyTo => {
            v.push(73); v.push(110); v.push(45); v.push(82); v.push(101); v.push(112); v.push(108); v.push(121); v.push(45); v.push(84); v.push(111);
        },
        HeaderKind::MaxForwards => {
            v.push(77); v.push(97); v.push(120); v.push(45); v.push(70); v.push(111); v.push(114); v.push(119); v.push(97); v.push(114); v.push(100); v.push(115);
        },
        HeaderKind::MimeVersion => {
            v.push(77); v.push(73); v.push(77); v.push(69); v.push(45); v.push(86); v.push(101); v.push(114); v.push(115); v.push(105); v.push(111); v.push(110);
        },
        HeaderKind::MinExpires => {
            v.push(77); v.push(105); v.push(110); v.push(45); v.push(69); v.push(120); v.push(112); v.push(105); v.push(114); v.push(101); v.push(115);
        },
        HeaderKind::Organization => {
            v.push(79); v.push(114); v.push(103); v.push(97); v.push(110); v.push(105); v.push(122); v.push(97); v.push(116); v.push(105); v.push(111); v.push(110);
        },
        HeaderKind::Priority => {
            v.push(80); v.push(114); v.push(105); v.push(111); v.push(114); v.push(105); v.push(116); v.push(121);
        },
        HeaderKind::ProxyAuthenticate => {
            v.push(80); v.push(114); v.push(111); v.push(120); v.push(121); v.push(45); v.push(65); v.push(117); v.push(116); v.push(104); v.push(101); v.push(110); v.push(116); v.push(105); v.push(99); v.push(97); v.push(116); v.push(101);
        },
        HeaderKind::ProxyAuthorization => {
            v.push(80); v.push(114); v.push(111); v.push(120); v.push(121); v.push(45); v.push(65); v.push(117); v.push(116); v.push(104); v.push(111); v.push(114); v.push(105); v.push(122); v.push(97); v.push(116); v.push(105); v.push(111); v.push(110);
        },
        HeaderKind::ProxyRequire => {
            v.push(80); v.push(114); v.push(111); v.push(120); v.push(121); v.push(45); v.push(82); v.push(101); v.push(113); v.push(117); v.push(105); v.push(114); v.push(101);
        },
        HeaderKind::RecordRoute => {
            v.push(82); v.push(101); v.push(99); v.push(111); v.push(114); v.push(100); v.push(45); v.push(82); v.push(111); v.push(117); v.push(116); v.push(101);
        },
        HeaderKind::ReplyTo => {
            v.push(82); v.push(101); v.push(112); v.push(108); v.push(121); v.push(45); v.push(84); v.push(111);
        },
        HeaderKind::Require => {
            v.push(82); v.push(101); v.push(113); v.push(117); v.push(105); v.push(114); v.push(101);
        },
        HeaderKind::RetryAfter => {
            v.push(82); v.push(101); v.push(116); v.push(114); v.push(121); v.push(45); v.push(65); v.push(102); v.push(116); v.push(101); v.push(114);
        },
        HeaderKind::Route => {
            v.push(82); v.push(111); v.push(117); v.push(116); v.push(101);
        },
        HeaderKind::Server => {
            v.push(83); v.push(101); v.push(114); v.push(118); v.push(101); v.push(114);
        },
        HeaderKind::Subject => {
            v.push(83); v.push(117); v.push(98); v.push(106); v.push(101); v.push(99); v.push(116);
        },
        HeaderKind::Supported => {
            v.push(83); v.push(117); v.push(112); v.push(112); v.push(111); v.push(114); v.push(116); v.push(101); v.push(100);
        },
        HeaderKind::Timestamp => {
            v.push(84); v.push(105); v.push(109); v.push(101); v.push(115); v.push(116); v.push(97); v.push(109); v.push(112);
        },
        HeaderKind::To => {
            v.push(84); v.push(111);
        },
        HeaderKind::Unsupported => {
            v.push(85); v.push(110); v.push(115); v.push(117); v.push(112); v.push(112); v.push(111); v.push(114); v.push(116); v.push(101); v.push(100);
        },
        HeaderKind::UserAgent => {
            v.push(85); v.push(115); v.push(101); v.push(114); v.push(45); v.push(65); v.push(103); v.push(101); v.push(110); v.push(116);
        },
        HeaderKind::Via => {
            v.push(86); v.push(105); v.push(97);
        },
        HeaderKind::Warning => {
            v.push(87); v.push(97); v.push(114); v.push(110); v.push(105); v.push(110); v.push(103);
        },
        HeaderKind::WwwAuthenticate => {
            v.push(87); v.push(87); v.push(87); v.push(45); v.push(65); v.push(117); v.push(116); v.push(104); v.push(101); v.push(110); v.push(116); v.push(105); v.push(99); v.push(97); v.push(116); v.push(101);
        },
    }
    proof {
        assert(v@ =~= spec_tag(k));
    }
    v
}

/// The kind whose tag equals `t`, if any; tried in the dispatcher's order.
pub open spec fn kind_of_tag(t: Seq<u8>) -> Option<HeaderKind> {
    if t == spec_tag(HeaderKind::AcceptEncoding) {
        Some(HeaderKind::AcceptEncoding)
    } else     if t == spec_tag(HeaderKind::Accept) {
        Some(HeaderKind::Accept)
    } else     if t == spec_tag(HeaderKind::AcceptLanguage) {
        Some(HeaderKind::AcceptLanguage)
    } else     if t == spec_tag(HeaderKind::AlertInfo) {
        Some(HeaderKind::AlertInfo)
    } else     if t == spec_tag(HeaderKind::Allow) {
        Some(HeaderKind::Allow)
    } else     if t == spec_tag(HeaderKind::AuthenticationInfo) {
        Some(HeaderKind::AuthenticationInfo)
    } else     if t == spec_tag(HeaderKind::Authorization) {
        Some(HeaderKind::Authorization)
    } else     if t == spec_tag(HeaderKind::CallInfo) {
        Some(HeaderKind::CallInfo)
    } else     if t == spec_tag(HeaderKind::CallId) {
        Some(HeaderKind::CallId)
    } else     if t == spec_tag(HeaderKind::Contact) {
        Some(HeaderKind::Contact)
    } else     if t == spec_tag(HeaderKind::ContentDisposition) {
        Some(HeaderKind::ContentDisposition)
    } else     if t == spec_tag(HeaderKind::ContentEncoding) {
        Some(HeaderKind::ContentEncoding)
    } else     if t == spec_tag(HeaderKind::ContentLanguage) {
        Some(HeaderKind::ContentLanguage)
    } else     if t == spec_tag(HeaderKind::ContentLength) {
        Some(HeaderKind::ContentLength)
    } else     if t == spec_tag(HeaderKind::ContentType) {
        Some(HeaderKind::ContentType)
    } else     if t == spec_tag(HeaderKind::CSeq) {
        Some(HeaderKind::CSeq)
    } else     if t == spec_tag(HeaderKind::Date) {
        Some(HeaderKind::Date)
    } else     if t == spec_tag(HeaderKind::ErrorInfo) {
        Some(HeaderKind::ErrorInfo)
    } else     if t == spec_tag(HeaderKind::Expires) {
        Some(HeaderKind::Expires)
    } else     if t == spec_tag(HeaderKind::From) {
        Some(HeaderKind::From)
    } else     if t == spec_tag(HeaderKind::InReplyTo) {
        Some(HeaderKind::InReplyTo)
    } else     if t == spec_tag(HeaderKind::MaxForwards) {
        Some(HeaderKind::MaxForwards)
    } else     if t == spec_tag(HeaderKind::MimeVersion) {
        Some(HeaderKind::MimeVersion)
    } else     if t == spec_tag(HeaderKind::MinExpires) {
        Some(HeaderKind::MinExpires)
    } else     if t == spec_tag(HeaderKind::Organization) {
        Some(HeaderKind::Organization)
    } else     if t == spec_tag(HeaderKind::Priority) {
        Some(HeaderKind::Priority)
    } else     if t == spec_tag(HeaderKind::ProxyAuthenticate) {
        Some(HeaderKind::ProxyAuthenticate)
    } else     if t == spec_tag(HeaderKind::ProxyAuthorization) {
        Some(HeaderKind::ProxyAuthorization)
    } else     if t == spec_tag(HeaderKind::ProxyRequire) {
        Some(HeaderKind::ProxyRequire)
    } else     if t == spec_tag(HeaderKind::RecordRoute) {
        Some(HeaderKind::RecordRoute)
    } else     if t == spec_tag(HeaderKind::ReplyTo) {
        Some(HeaderKind::ReplyTo)
    } else     if t == spec_tag(HeaderKind::Require) {
        Some(HeaderKind::Require)
    } else     if t == spec_tag(HeaderKind::RetryAfter) {
        Some(HeaderKind::RetryAfter)
    } else     if t == spec_tag(HeaderKind::Route) {
        Some(HeaderKind::Route)
    } else     if t == spec_tag(HeaderKind::Server) {
        Some(HeaderKind::Server)
    } else     if t == spec_tag(HeaderKind::Subject) {
        Some(HeaderKind::Subject)
    } else     if t == spec_tag(HeaderKind::Supported) {
        Some(HeaderKind::Supported)
    } else     if t == spec_tag(HeaderKind::Timestamp) {
        Some(HeaderKind::Timestamp)
    } else     if t == spec_tag(HeaderKind::To) {
        Some(HeaderKind::To)
    } else     if t == spec_tag(HeaderKind::Unsupported) {
        Some(HeaderKind::Unsupported)
    } else     if t == spec_tag(HeaderKind::UserAgent) {
        Some(HeaderKind::UserAgent)
    } else     if t == spec_tag(HeaderKind::Via) {
        Some(HeaderKind::Via)
    } else     if t == spec_tag(HeaderKind::Warning) {
        Some(HeaderKind::Warning)
    } else     if t == spec_tag(HeaderKind::WwwAuthenticate) {
        Some(HeaderKind::WwwAuthenticate)
    } else {
        None
    }
}

/// Exec lookup of the kind for the tag bytes `s[from..to]`.
pub fn find_kind(s: &[u8], from: usize, to: usize) -> (r: Option<HeaderKind>)
    requires
        from <= to <= s@.len(),
    ensures
        r == kind_of_tag(s@.subrange(from as int, to as int)),
{
    if crate::scan::range_is(s, from, to, tag_bytes(HeaderKind::AcceptEncoding).as_slice()) {
        return Some(HeaderKind::AcceptEncoding);
    }
    if crate::scan::range_is(s, from, to, tag_bytes(HeaderKind::Accept).as_slice()) {
        return Some(HeaderKind::Accept);
    }
    if crate::scan::range_is(s, from, to, tag_bytes(HeaderKind::AcceptLanguage).as_slice()) {
        return Some(HeaderKind::AcceptLanguage);
    }
    if crate::scan::range_is(s, from, to, tag_bytes(HeaderKind::AlertInfo).as_slice()) {
        return Some(HeaderKind::AlertInfo);
    }
    if crate::scan::range_is(s, from, to, tag_bytes(HeaderKind::Allow).as_slice()) {
        return Some(HeaderKind::Allow);
    }
    if crate::scan::range_is(s, from, to, tag_bytes(HeaderKind::AuthenticationInfo).as_slice()) {
        return Some(HeaderKind::AuthenticationInfo);
    }
    if crate::scan::range_is(s, from, to, tag_bytes(HeaderKind::Authorization).as_slice()) {
        return Some(HeaderKind::Authorization);
    }
    if crate::scan::range_is(s, from, to, tag_bytes(HeaderKind::CallInfo).as_slice()) {
        return Some(HeaderKind::CallInfo);
    }
    if crate::scan::range_is(s, from, to, tag_bytes(HeaderKind::CallId).as_slice()) {
        return Some(HeaderKind::CallId);
    }
    if crate::scan::range_is(s, from, to, tag_bytes(HeaderKind::Contact).as_slice()) {
        return Some(HeaderKind::Contact);
    }
    if crate::scan::range_is(s, from, to, tag_bytes(HeaderKind::ContentDisposition).as_slice()) {
        return Some(HeaderKind::ContentDisposition);
    }
    if crate::scan::range_is(s, from, to, tag_bytes(HeaderKind::ContentEncoding).as_slice()) {
        return Some(HeaderKind::ContentEncoding);
    }
    if crate::scan::range_is(s, from, to, tag_bytes(HeaderKind::ContentLanguage).as_slice()) {
        return Some(HeaderKind::ContentLanguage);
    }
    if crate::scan::range_is(s, from, to, tag_bytes(HeaderKind::ContentLength).as_slice()) {
        return Some(HeaderKind::ContentLength);
    }
    if crate::scan::range_is(s, from, to, tag_bytes(HeaderKind::ContentType).as_slice()) {
        return Some(HeaderKind::ContentType);
    }
    if crate::scan::range_is(s, from, to, tag_bytes(HeaderKind::CSeq).as_slice()) {
        return Some(HeaderKind::CSeq);
    }
    if crate::scan::range_is(s, from, to, tag_bytes(HeaderKind::Date).as_slice()) {
        return Some(HeaderKind::Date);
    }
    if crate::scan::range_is(s, from, to, tag_bytes(HeaderKind::ErrorInfo).as_slice()) {
        return Some(HeaderKind::ErrorInfo);
    }
    if crate::scan::range_is(s, from, to, tag_bytes(HeaderKind::Expires).as_slice()) {
        return Some(HeaderKind::Expires);
    }
    if crate::scan::range_is(s, from, to, tag_bytes(HeaderKind::From).as_slice()) {
        return Some(HeaderKind::From);
    }
    if crate::scan::range_is(s, from, to, tag_bytes(HeaderKind::InReplyTo).as_slice()) {
        return Some(HeaderKind::InReplyTo);
    }
    if crate::scan::range_is(s, from, to, tag_bytes(HeaderKind::MaxForwards).as_slice()) {
        return Some(HeaderKind::MaxForwards);
    }
    if crate::scan::range_is(s, from, to, tag_bytes(HeaderKind::MimeVersion).as_slice()) {
        return Some(HeaderKind::MimeVersion);
    }
    if crate::scan::range_is(s, from, to, tag_bytes(HeaderKind::MinExpires).as_slice()) {
        return Some(HeaderKind::MinExpires);
    }
    if crate::scan::range_is(s, from, to, tag_bytes(HeaderKind::Organization).as_slice()) {
        return Some(HeaderKind::Organization);
    }
    if crate::scan::range_is(s, from, to, tag_bytes(HeaderKind::Priority).as_slice()) {
        return Some(HeaderKind::Priority);
    }
    if crate::scan::range_is(s, from, to, tag_bytes(HeaderKind::ProxyAuthenticate).as_slice()) {
        return Some(HeaderKind::ProxyAuthenticate);
    }
    if crate::scan::range_is(s, from, to, tag_bytes(HeaderKind::ProxyAuthorization).as_slice()) {
        return Some(HeaderKind::ProxyAuthorization);
    }
    if crate::scan::range_is(s, from, to, tag_bytes(HeaderKind::ProxyRequire).as_slice()) {
        return Some(HeaderKind::ProxyRequire);
    }
    if crate::scan::range_is(s, from, to, tag_bytes(HeaderKind::RecordRoute).as_slice()) {
        return Some(HeaderKind::RecordRoute);
    }
    if crate::scan::range_is(s, from, to, tag_bytes(HeaderKind::ReplyTo).as_slice()) {
        return Some(HeaderKind::ReplyTo);
    }
    if crate::scan::range_is(s, from, to, tag_bytes(HeaderKind::Require).as_slice()) {
        return Some(HeaderKind::Require);
    }
    if crate::scan::range_is(s, from, to, tag_bytes(HeaderKind::RetryAfter).as_slice()) {
        return Some(HeaderKind::RetryAfter);
    }
    if crate::scan::range_is(s, from, to, tag_bytes(HeaderKind::Route).as_slice()) {
        return Some(HeaderKind::Route);
    }
    if crate::scan::range_is(s, from, to, tag_bytes(HeaderKind::Server).as_slice()) {
        return Some(HeaderKind::Server);
    }
    if crate::scan::range_is(s, from, to, tag_bytes(HeaderKind::Subject).as_slice()) {
        return Some(HeaderKind::Subject);
    }
    if crate::scan::range_is(s, from, to, tag_bytes(HeaderKind::Supported).as_slice()) {
        return Some(HeaderKind::Supported);
    }
    if crate::scan::range_is(s, from, to, tag_bytes(HeaderKind::Timestamp).as_slice()) {
        return Some(HeaderKind::Timestamp);
    }
    if crate::scan::range_is(s, from, to, tag_bytes(HeaderKind::To).as_slice()) {
        return Some(HeaderKind::To);
    }
    if crate::scan::range_is(s, from, to, tag_bytes(HeaderKind::Unsupported).as_slice()) {
        return Some(HeaderKind::Unsupported);
    }
    if crate::scan::range_is(s, from, to, tag_bytes(HeaderKind::UserAgent).as_slice()) {
        return Some(HeaderKind::UserAgent);
    }
    if crate::scan::range_is(s, from, to, tag_bytes(HeaderKind::Via).as_slice()) {
        return Some(HeaderKind::Via);
    }
    if crate::scan::range_is(s, from, to, tag_bytes(HeaderKind::Warning).as_slice()) {
        return Some(HeaderKind::Warning);
    }
    if crate::scan::range_is(s, from, to, tag_bytes(HeaderKind::WwwAuthenticate).as_slice()) {
        return Some(HeaderKind::WwwAuthenticate);
    }
    None
}

/// A well-formed tag: non-empty, made only of tag characters.
pub open spec fn tag_wf(t: Seq<u8>) -> bool {
    t.len() >= 1 && forall|i: int| 0 <= i < t.len() ==> crate::scan::is_tag_b(#[trigger] t[i])
}

/// Every recognized tag is well formed.
pub proof fn lemma_tags_wf()
    ensures
        forall|k: HeaderKind| tag_wf(#[trigger] spec_tag(k)),
{
    assert(tag_wf(spec_tag(HeaderKind::AcceptEncoding)));
    assert(tag_wf(spec_tag(HeaderKind::Accept)));
    assert(tag_wf(spec_tag(HeaderKind::AcceptLanguage)));
    assert(tag_wf(spec_tag(HeaderKind::AlertInfo)));
    assert(tag_wf(spec_tag(HeaderKind::Allow)));
    assert(tag_wf(spec_tag(HeaderKind::AuthenticationInfo)));
    assert(tag_wf(spec_tag(HeaderKind::Authorization)));
    assert(tag_wf(spec_tag(HeaderKind::CallInfo)));
    assert(tag_wf(spec_tag(HeaderKind::CallId)));
    assert(tag_wf(spec_tag(HeaderKind::Contact)));
    assert(tag_wf(spec_tag(HeaderKind::ContentDisposition)));
    assert(tag_wf(spec_tag(HeaderKind::ContentEncoding)));
    assert(tag_wf(spec_tag(HeaderKind::ContentLanguage)));
    assert(tag_wf(spec_tag(HeaderKind::ContentLength)));
    assert(tag_wf(spec_tag(HeaderKind::ContentType)));
    assert(tag_wf(spec_tag(HeaderKind::CSeq)));
    assert(tag_wf(spec_tag(HeaderKind::Date)));
    assert(tag_wf(spec_tag(HeaderKind::ErrorInfo)));
    assert(tag_wf(spec_tag(HeaderKind::Expires)));
    assert(tag_wf(spec_tag(HeaderKind::From)));
    assert(tag_wf(spec_tag(HeaderKind::InReplyTo)));
    assert(tag_wf(spec_tag(HeaderKind::MaxForwards)));
    assert(tag_wf(spec_tag(HeaderKind::MimeVersion)));
    assert(tag_wf(spec_tag(HeaderKind::MinExpires)));
    assert(tag_wf(spec_tag(HeaderKind::Organization)));
    assert(tag_wf(spec_tag(HeaderKind::Priority)));
    assert(tag_wf(spec_tag(HeaderKind::ProxyAuthenticate)));
    assert(tag_wf(spec_tag(HeaderKind::ProxyAuthorization)));
    assert(tag_wf(spec_tag(HeaderKind::ProxyRequire)));
    assert(tag_wf(spec_tag(HeaderKind::RecordRoute)));
    assert(tag_wf(spec_tag(HeaderKind::ReplyTo)));
    assert(tag_wf(spec_tag(HeaderKind::Require)));
    assert(tag_wf(spec_tag(HeaderKind::RetryAfter)));
    assert(tag_wf(spec_tag(HeaderKind::Route)));
    assert(tag_wf(spec_tag(HeaderKind::Server)));
    assert(tag_wf(spec_tag(HeaderKind::Subject)));
    assert(tag_wf(spec_tag(HeaderKind::Supported)));
    assert(tag_wf(spec_tag(HeaderKind::Timestamp)));
    assert(tag_wf(spec_tag(HeaderKind::To)));
    assert(tag_wf(spec_tag(HeaderKind::Unsupported)));
    assert(tag_wf(spec_tag(HeaderKind::UserAgent)));
    assert(tag_wf(spec_tag(HeaderKind::Via)));
    assert(tag_wf(spec_tag(HeaderKind::Warning)));
    assert(tag_wf(spec_tag(HeaderKind::WwwAuthenticate)));
}

/// Looking a kind's own tag up finds that kind: the recognized tags are
/// pairwise distinct.
#[verifier::rlimit(100)]
pub proof fn lemma_kind_of_self(k: HeaderKind)
    ensures
        kind_of_tag(spec_tag(k)) == Some(k),
{
    assert(spec_tag(HeaderKind::AcceptEncoding).len() == 15);
    assert(spec_tag(HeaderKind::Accept).len() == 6);
    assert(spec_tag(HeaderKind::AcceptLanguage).len() == 15);
    assert(spec_tag(HeaderKind::AlertInfo).len() == 10);
    assert(spec_tag(HeaderKind::Allow).len() == 5);
    assert(spec_tag(HeaderKind::AuthenticationInfo).len() == 19);
    assert(spec_tag(HeaderKind::Authorization).len() == 13);
    assert(spec_tag(HeaderKind::CallInfo).len() == 9);
    assert(spec_tag(HeaderKind::CallId).len() == 7);
    assert(spec_tag(HeaderKind::Contact).len() == 7);
    assert(spec_tag(HeaderKind::ContentDisposition).len() == 19);
    assert(spec_tag(HeaderKind::ContentEncoding).len() == 16);
    assert(spec_tag(HeaderKind::ContentLanguage).len() == 16);
    assert(spec_tag(HeaderKind::ContentLength).len() == 14);
    assert(spec_tag(HeaderKind::ContentType).len() == 12);
    assert(spec_tag(HeaderKind::CSeq).len() == 4);
    assert(spec_tag(HeaderKind::Date).len() == 4);
    assert(spec_tag(HeaderKind::ErrorInfo).len() == 10);
    assert(spec_tag(HeaderKind::Expires).len() == 7);
    assert(spec_tag(HeaderKind::From).len() == 4);
    assert(spec_tag(HeaderKind::InReplyTo).len() == 11);
    assert(spec_tag(HeaderKind::MaxForwards).len() == 12);
    assert(spec_tag(HeaderKind::MimeVersion).len() == 12);
    assert(spec_tag(HeaderKind::MinExpires).len() == 11);
    assert(spec_tag(HeaderKind::Organization).len() == 12);
    assert(spec_tag(HeaderKind::Priority).len() == 8);
    assert(spec_tag(HeaderKind::ProxyAuthenticate).len() == 18);
    assert(spec_tag(HeaderKind::ProxyAuthorization).len() == 19);
    assert(spec_tag(HeaderKind::ProxyRequire).len() == 13);
    assert(spec_tag(HeaderKind::RecordRoute).len() == 12);
    assert(spec_tag(HeaderKind::ReplyTo).len() == 8);
    assert(spec_tag(HeaderKind::Require).len() == 7);
    assert(spec_tag(HeaderKind::RetryAfter).len() == 11);
    assert(spec_tag(HeaderKind::Route).len() == 5);
    assert(spec_tag(HeaderKind::Server).len() == 6);
    assert(spec_tag(HeaderKind::Subject).len() == 7);
    assert(spec_tag(HeaderKind::Supported).len() == 9);
    assert(spec_tag(HeaderKind::Timestamp).len() == 9);
    assert(spec_tag(HeaderKind::To).len() == 2);
    assert(spec_tag(HeaderKind::Unsupported).len() == 11);
    assert(spec_tag(HeaderKind::UserAgent).len() == 10);
    assert(spec_tag(HeaderKind::Via).len() == 3);
    assert(spec_tag(HeaderKind::Warning).len() == 7);
    assert(spec_tag(HeaderKind::WwwAuthenticate).len() == 16);
    assert(spec_tag(HeaderKind::CSeq)[0] != spec_tag(HeaderKind::Date)[0]);
    assert(spec_tag(HeaderKind::CSeq)[0] != spec_tag(HeaderKind::From)[0]);
    assert(spec_tag(HeaderKind::Date)[0] != spec_tag(HeaderKind::From)[0]);
    assert(spec_tag(HeaderKind::Allow)[0] != spec_tag(HeaderKind::Route)[0]);
    assert(spec_tag(HeaderKind::Accept)[0] != spec_tag(HeaderKind::Server)[0]);
    assert(spec_tag(HeaderKind::CallId)[1] != spec_tag(HeaderKind::Contact)[1]);
    assert(spec_tag(HeaderKind::CallId)[0] != spec_tag(HeaderKind::Expires)[0]);
    assert(spec_tag(HeaderKind::CallId)[0] != spec_tag(HeaderKind::Require)[0]);
    assert(spec_tag(HeaderKind::CallId)[0] != spec_tag(HeaderKind::Subject)[0]);
    assert(spec_tag(HeaderKind::CallId)[0] != spec_tag(HeaderKind::Warning)[0]);
    assert(spec_tag(HeaderKind::Contact)[0] != spec_tag(HeaderKind::Expires)[0]);
    assert(spec_tag(HeaderKind::Contact)[0] != spec_tag(HeaderKind::Require)[0]);
    assert(spec_tag(HeaderKind::Contact)[0] != spec_tag(HeaderKind::Subject)[0]);
    assert(spec_tag(HeaderKind::Contact)[0] != spec_tag(HeaderKind::Warning)[0]);
    assert(spec_tag(HeaderKind::Expires)[0] != spec_tag(HeaderKind::Require)[0]);
    assert(spec_tag(HeaderKind::Expires)[0] != spec_tag(HeaderKind::Subject)[0]);
    assert(spec_tag(HeaderKind::Expires)[0] != spec_tag(HeaderKind::Warning)[0]);
    assert(spec_tag(HeaderKind::Require)[0] != spec_tag(HeaderKind::Subject)[0]);
    assert(spec_tag(HeaderKind::Require)[0] != spec_tag(HeaderKind::Warning)[0]);
    assert(spec_tag(HeaderKind::Subject)[0] != spec_tag(HeaderKind::Warning)[0]);
    assert(spec_tag(HeaderKind::Priority)[0] != spec_tag(HeaderKind::ReplyTo)[0]);
    assert(spec_tag(HeaderKind::CallInfo)[0] != spec_tag(HeaderKind::Supported)[0]);
    assert(spec_tag(HeaderKind::CallInfo)[0] != spec_tag(HeaderKind::Timestamp)[0]);
    assert(spec_tag(HeaderKind::Supported)[0] != spec_tag(HeaderKind::Timestamp)[0]);
    assert(spec_tag(HeaderKind::AlertInfo)[0] != spec_tag(HeaderKind::ErrorInfo)[0]);
    assert(spec_tag(HeaderKind::AlertInfo)[0] != spec_tag(HeaderKind::UserAgent)[0]);
    assert(spec_tag(HeaderKind::ErrorInfo)[0] != spec_tag(HeaderKind::UserAgent)[0]);
    assert(spec_tag(HeaderKind::InReplyTo)[0] != spec_tag(HeaderKind::MinExpires)[0]);
    assert(spec_tag(HeaderKind::InReplyTo)[0] != spec_tag(HeaderKind::RetryAfter)[0]);
    assert(spec_tag(HeaderKind::InReplyTo)[0] != spec_tag(HeaderKind::Unsupported)[0]);
    assert(spec_tag(HeaderKind::MinExpires)[0] != spec_tag(HeaderKind::RetryAfter)[0]);
    assert(spec_tag(HeaderKind::MinExpires)[0] != spec_tag(HeaderKind::Unsupported)[0]);
    assert(spec_tag(HeaderKind::RetryAfter)[0] != spec_tag(HeaderKind::Unsupported)[0]);
    assert(spec_tag(HeaderKind::ContentType)[0] != spec_tag(HeaderKind::MaxForwards)[0]);
    assert(spec_tag(HeaderKind::ContentType)[0] != spec_tag(HeaderKind::MimeVersion)[0]);
    assert(spec_tag(HeaderKind::ContentType)[0] != spec_tag(HeaderKind::Organization)[0]);
    assert(spec_tag(HeaderKind::ContentType)[0] != spec_tag(HeaderKind::RecordRoute)[0]);
    assert(spec_tag(HeaderKind::MaxForwards)[1] != spec_tag(HeaderKind::MimeVersion)[1]);
    assert(spec_tag(HeaderKind::MaxForwards)[0] != spec_tag(HeaderKind::Organization)[0]);
    assert(spec_tag(HeaderKind::MaxForwards)[0] != spec_tag(HeaderKind::RecordRoute)[0]);
    assert(spec_tag(HeaderKind::MimeVersion)[0] != spec_tag(HeaderKind::Organization)[0]);
    assert(spec_tag(HeaderKind::MimeVersion)[0] != spec_tag(HeaderKind::RecordRoute)[0]);
    assert(spec_tag(HeaderKind::Organization)[0] != spec_tag(HeaderKind::RecordRoute)[0]);
    assert(spec_tag(HeaderKind::Authorization)[0] != spec_tag(HeaderKind::ProxyRequire)[0]);
    assert(spec_tag(HeaderKind::AcceptEncoding)[7] != spec_tag(HeaderKind::AcceptLanguage)[7]);
    assert(spec_tag(HeaderKind::ContentEncoding)[8] != spec_tag(HeaderKind::ContentLanguage)[8]);
    assert(spec_tag(HeaderKind::ContentEncoding)[0] != spec_tag(HeaderKind::WwwAuthenticate)[0]);
    assert(spec_tag(HeaderKind::ContentLanguage)[0] != spec_tag(HeaderKind::WwwAuthenticate)[0]);
    assert(spec_tag(HeaderKind::AuthenticationInfo)[0] != spec_tag(HeaderKind::ContentDisposition)[0]);
    assert(spec_tag(HeaderKind::AuthenticationInfo)[0] != spec_tag(HeaderKind::ProxyAuthorization)[0]);
    assert(spec_tag(HeaderKind::ContentDisposition)[0] != spec_tag(HeaderKind::ProxyAuthorization)[0]);
}

} // verus!
