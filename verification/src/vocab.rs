//! The closed vocabularies: request methods, content types and languages,
//! each with its canonical wire token.
use vstd::prelude::*;

verus! {

/// A SIP request method.
#[derive(Clone, Copy, Debug, PartialEq, Eq, Structural)]
pub enum Method {
    Ack,
    Bye,
    Cancel,
    Info,
    Invite,
    Message,
    Notify,
    Options,
    Publish,
    Refer,
    Register,
    Subscribe,
    Update,
}

/// The canonical uppercase token of a method.
pub open spec fn method_tok(m: Method) -> Seq<u8> {
    match m {
        Method::Ack => seq![65u8, 67u8, 75u8],
        Method::Bye => seq![66u8, 89u8, 69u8],
        Method::Cancel => seq![67u8, 65u8, 78u8, 67u8, 69u8, 76u8],
        Method::Info => seq![73u8, 78u8, 70u8, 79u8],
        Method::Invite => seq![73u8, 78u8, 86u8, 73u8, 84u8, 69u8],
        Method::Message => seq![77u8, 69u8, 83u8, 83u8, 65u8, 71u8, 69u8],
        Method::Notify => seq![78u8, 79u8, 84u8, 73u8, 70u8, 89u8],
        Method::Options => seq![79u8, 80u8, 84u8, 73u8, 79u8, 78u8, 83u8],
        Method::Publish => seq![80u8, 85u8, 66u8, 76u8, 73u8, 83u8, 72u8],
        Method::Refer => seq![82u8, 69u8, 70u8, 69u8, 82u8],
        Method::Register => seq![82u8, 69u8, 71u8, 73u8, 83u8, 84u8, 69u8, 82u8],
        Method::Subscribe => seq![83u8, 85u8, 66u8, 83u8, 67u8, 82u8, 73u8, 66u8, 69u8],
        Method::Update => seq![85u8, 80u8, 68u8, 65u8, 84u8, 69u8],
    }
}

/// The method whose token equals `t`, if any.
pub open spec fn method_of_token(t: Seq<u8>) -> Option<Method> {
    if t == method_tok(Method::Ack) {
        Some(Method::Ack)
    } else     if t == method_tok(Method::Bye) {
        Some(Method::Bye)
    } else     if t == method_tok(Method::Cancel) {
        Some(Method::Cancel)
    } else     if t == method_tok(Method::Info) {
        Some(Method::Info)
    } else     if t == method_tok(Method::Invite) {
        Some(Method::Invite)
    } else     if t == method_tok(Method::Message) {
        Some(Method::Message)
    } else     if t == method_tok(Method::Notify) {
        Some(Method::Notify)
    } else     if t == method_tok(Method::Options) {
        Some(Method::Options)
    } else     if t == method_tok(Method::Publish) {
        Some(Method::Publish)
    } else     if t == method_tok(Method::Refer) {
        Some(Method::Refer)
    } else     if t == method_tok(Method::Register) {
        Some(Method::Register)
    } else     if t == method_tok(Method::Subscribe) {
        Some(Method::Subscribe)
    } else     if t == method_tok(Method::Update) {
        Some(Method::Update)
    } else {
        None
    }
}

/// The canonical token of a method, as an owned byte vector.
pub fn method_bytes(m: Method) -> (r: Vec<u8>)
    ensures
        r@ == method_tok(m),
{
    let mut v: Vec<u8> = Vec::new();
    match m {
        Method::Ack => {
            v.push(65); v.push(67); v.push(75);
        },
        Method::Bye => {
            v.push(66); v.push(89); v.push(69);
        },
        Method::Cancel => {
            v.push(67); v.push(65); v.push(78); v.push(67); v.push(69); v.push(76);
        },
        Method::Info => {
            v.push(73); v.push(78); v.push(70); v.push(79);
        },
        Method::Invite => {
            v.push(73); v.push(78); v.push(86); v.push(73); v.push(84); v.push(69);
        },
        Method::Message => {
            v.push(77); v.push(69); v.push(83); v.push(83); v.push(65); v.push(71); v.push(69);
        },
        Method::Notify => {
            v.push(78); v.push(79); v.push(84); v.push(73); v.push(70); v.push(89);
        },
        Method::Options => {
            v.push(79); v.push(80); v.push(84); v.push(73); v.push(79); v.push(78); v.push(83);
        },
        Method::Publish => {
            v.push(80); v.push(85); v.push(66); v.push(76); v.push(73); v.push(83); v.push(72);
        },
        Method::Refer => {
            v.push(82); v.push(69); v.push(70); v.push(69); v.push(82);
        },
        Method::Register => {
            v.push(82); v.push(69); v.push(71); v.push(73); v.push(83); v.push(84); v.push(69); v.push(82);
        },
        Method::Subscribe => {
            v.push(83); v.push(85); v.push(66); v.push(83); v.push(67); v.push(82); v.push(73); v.push(66); v.push(69);
        },
        Method::Update => {
            v.push(85); v.push(80); v.push(68); v.push(65); v.push(84); v.push(69);
        },
    }
    proof {
        assert(v@ =~= method_tok(m));
    }
    v
}

/// Exec lookup of the method for the token bytes `s[from..to]`.
pub fn find_method(s: &[u8], from: usize, to: usize) -> (r: Option<Method>)
    requires
        from <= to <= s@.len(),
    ensures
        r == method_of_token(s@.subrange(from as int, to as int)),
{
    if crate::scan::range_is(s, from, to, method_bytes(Method::Ack).as_slice()) {
        return Some(Method::Ack);
    }
    if crate::scan::range_is(s, from, to, method_bytes(Method::Bye).as_slice()) {
        return Some(Method::Bye);
    }
    if crate::scan::range_is(s, from, to, method_bytes(Method::Cancel).as_slice()) {
        return Some(Method::Cancel);
    }
    if crate::scan::range_is(s, from, to, method_bytes(Method::Info).as_slice()) {
        return Some(Method::Info);
    }
    if crate::scan::range_is(s, from, to, method_bytes(Method::Invite).as_slice()) {
        return Some(Method::Invite);
    }
    if crate::scan::range_is(s, from, to, method_bytes(Method::Message).as_slice()) {
        return Some(Method::Message);
    }
    if crate::scan::range_is(s, from, to, method_bytes(Method::Notify).as_slice()) {
        return Some(Method::Notify);
    }
    if crate::scan::range_is(s, from, to, method_bytes(Method::Options).as_slice()) {
        return Some(Method::Options);
    }
    if crate::scan::range_is(s, from, to, method_bytes(Method::Publish).as_slice()) {
        return Some(Method::Publish);
    }
    if crate::scan::range_is(s, from, to, method_bytes(Method::Refer).as_slice()) {
        return Some(Method::Refer);
    }
    if crate::scan::range_is(s, from, to, method_bytes(Method::Register).as_slice()) {
        return Some(Method::Register);
    }
    if crate::scan::range_is(s, from, to, method_bytes(Method::Subscribe).as_slice()) {
        return Some(Method::Subscribe);
    }
    if crate::scan::range_is(s, from, to, method_bytes(Method::Update).as_slice()) {
        return Some(Method::Update);
    }
    None
}

/// Every method token is a non-empty run of letters, and looking a method's
/// own token up finds that method.
pub proof fn lemma_method_tok(m: Method)
    ensures
        method_tok(m).len() >= 1,
        forall|i: int| 0 <= i < method_tok(m).len() ==> crate::scan::is_alpha_b(
            #[trigger] method_tok(m)[i],
        ),
        method_of_token(method_tok(m)) == Some(m),
{
    assert(method_tok(Method::Ack).len() == 3);
    assert(forall|i: int| 0 <= i < method_tok(Method::Ack).len() ==> crate::scan::is_alpha_b(#[trigger] method_tok(Method::Ack)[i]));
    assert(method_tok(Method::Bye).len() == 3);
    assert(forall|i: int| 0 <= i < method_tok(Method::Bye).len() ==> crate::scan::is_alpha_b(#[trigger] method_tok(Method::Bye)[i]));
    assert(method_tok(Method::Cancel).len() == 6);
    assert(forall|i: int| 0 <= i < method_tok(Method::Cancel).len() ==> crate::scan::is_alpha_b(#[trigger] method_tok(Method::Cancel)[i]));
    assert(method_tok(Method::Info).len() == 4);
    assert(forall|i: int| 0 <= i < method_tok(Method::Info).len() ==> crate::scan::is_alpha_b(#[trigger] method_tok(Method::Info)[i]));
    assert(method_tok(Method::Invite).len() == 6);
    assert(forall|i: int| 0 <= i < method_tok(Method::Invite).len() ==> crate::scan::is_alpha_b(#[trigger] method_tok(Method::Invite)[i]));
    assert(method_tok(Method::Message).len() == 7);
    assert(forall|i: int| 0 <= i < method_tok(Method::Message).len() ==> crate::scan::is_alpha_b(#[trigger] method_tok(Method::Message)[i]));
    assert(method_tok(Method::Notify).len() == 6);
    assert(forall|i: int| 0 <= i < method_tok(Method::Notify).len() ==> crate::scan::is_alpha_b(#[trigger] method_tok(Method::Notify)[i]));
    assert(method_tok(Method::Options).len() == 7);
    assert(forall|i: int| 0 <= i < method_tok(Method::Options).len() ==> crate::scan::is_alpha_b(#[trigger] method_tok(Method::Options)[i]));
    assert(method_tok(Method::Publish).len() == 7);
    assert(forall|i: int| 0 <= i < method_tok(Method::Publish).len() ==> crate::scan::is_alpha_b(#[trigger] method_tok(Method::Publish)[i]));
    assert(method_tok(Method::Refer).len() == 5);
    assert(forall|i: int| 0 <= i < method_tok(Method::Refer).len() ==> crate::scan::is_alpha_b(#[trigger] method_tok(Method::Refer)[i]));
    assert(method_tok(Method::Register).len() == 8);
    assert(forall|i: int| 0 <= i < method_tok(Method::Register).len() ==> crate::scan::is_alpha_b(#[trigger] method_tok(Method::Register)[i]));
    assert(method_tok(Method::Subscribe).len() == 9);
    assert(forall|i: int| 0 <= i < method_tok(Method::Subscribe).len() ==> crate::scan::is_alpha_b(#[trigger] method_tok(Method::Subscribe)[i]));
    assert(method_tok(Method::Update).len() == 6);
    assert(forall|i: int| 0 <= i < method_tok(Method::Update).len() ==> crate::scan::is_alpha_b(#[trigger] method_tok(Method::Update)[i]));
    assert(method_tok(Method::Ack)[0] != method_tok(Method::Bye)[0]);
    assert(method_tok(Method::Cancel)[0] != method_tok(Method::Invite)[0]);
    assert(method_tok(Method::Cancel)[0] != method_tok(Method::Notify)[0]);
    assert(method_tok(Method::Cancel)[0] != method_tok(Method::Update)[0]);
    assert(method_tok(Method::Invite)[0] != method_tok(Method::Notify)[0]);
    assert(method_tok(Method::Invite)[0] != method_tok(Method::Update)[0]);
    assert(method_tok(Method::Notify)[0] != method_tok(Method::Update)[0]);
    assert(method_tok(Method::Message)[0] != method_tok(Method::Options)[0]);
    assert(method_tok(Method::Message)[0] != method_tok(Method::Publish)[0]);
    assert(method_tok(Method::Options)[0] != method_tok(Method::Publish)[0]);
}

/// A content-type of the closed vocabulary.
#[derive(Clone, Copy, Debug, PartialEq, Eq, Structural)]
pub enum ContentType {
    Sdp,
    PlainText,
}

/// A language of the closed vocabulary.
#[derive(Clone, Copy, Debug, PartialEq, Eq, Structural)]
pub enum Language {
    English,
}

/// The canonical wire token of a content-type.
pub open spec fn ctype_tok(c: ContentType) -> Seq<u8> {
    match c {
        ContentType::Sdp => seq![97u8, 112u8, 112u8, 108u8, 105u8, 99u8, 97u8, 116u8, 105u8, 111u8, 110u8, 47u8, 115u8, 100u8, 112u8],
        ContentType::PlainText => seq![116u8, 101u8, 120u8, 116u8, 47u8, 112u8, 108u8, 97u8, 105u8, 110u8],
    }
}

/// The canonical wire token of a language.
pub open spec fn lang_tok(l: Language) -> Seq<u8> {
    match l {
        Language::English => seq![101u8, 110u8],
    }
}

/// The canonical token of a content-type, as an owned byte vector.
pub fn ctype_bytes(c: ContentType) -> (r: Vec<u8>)
    ensures
        r@ == ctype_tok(c),
{
    let mut v: Vec<u8> = Vec::new();
    match c {
        ContentType::Sdp => {
            v.push(97); v.push(112); v.push(112); v.push(108); v.push(105); v.push(99); v.push(97); v.push(116); v.push(105); v.push(111); v.push(110); v.push(47); v.push(115); v.push(100); v.push(112);
        },
        ContentType::PlainText => {
            v.push(116); v.push(101); v.push(120); v.push(116); v.push(47); v.push(112); v.push(108); v.push(97); v.push(105); v.push(110);
        },
    }
    proof {
        assert(v@ =~= ctype_tok(c));
    }
    v
}

/// The canonical token of a language, as an owned byte vector.
pub fn lang_bytes(l: Language) -> (r: Vec<u8>)
    ensures
        r@ == lang_tok(l),
{
    let mut v: Vec<u8> = Vec::new();
    match l {
        Language::English => {
            v.push(101); v.push(110);
        },
    }
    proof {
        assert(v@ =~= lang_tok(l));
    }
    v
}

} // verus!
