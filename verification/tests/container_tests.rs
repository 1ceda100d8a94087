use sip_headers::client::{derived_call_id, MessageHelper, MessageWriter};
use sip_headers::headers::Headers;
use sip_headers::model::{Header, Uri};
use sip_headers::vocab::Method;

#[test]
fn first_match_accessor() {
    let mut hs = Headers::new();
    hs.push(Header::Via(b"first".to_vec()));
    hs.push(Header::Via(b"second".to_vec()));
    assert_eq!(hs.via(), Some(Header::Via(b"first".to_vec())));
    assert_eq!(hs.len(), 2);
}

#[test]
fn typed_accessors() {
    let mut hs = Headers::new();
    hs.push(Header::Expires(3600));
    hs.push(Header::CSeq(7, Method::Register));
    assert_eq!(hs.expires(), Some(Header::Expires(3600)));
    assert_eq!(hs.cseq(), Some(Header::CSeq(7, Method::Register)));
    assert_eq!(hs.to(), None);
    let mut more: Vec<Header> = Vec::new();
    more.push(Header::MaxForwards(70));
    hs.extend(more);
    assert_eq!(hs.len(), 3);
    assert_eq!(*hs.get(2), Header::MaxForwards(70));
}

#[test]
fn derived_call_id_is_digest_at_host() {
    let seed: Vec<u8> = (0u8..16).collect();
    let id = derived_call_id(&seed, b"example.com");
    assert_eq!(id, b"1ac1ef01e96caf1be0d329331a4fc2a8@example.com".to_vec());
}

#[test]
fn writer_call_id_shape() {
    let w = MessageWriter::new(Uri::new(b"sip:alice@example.com".to_vec()));
    assert_eq!(w.call_id.len(), 32 + 1 + b"example.com".len());
    assert_eq!(w.call_id[32], b'@');
    assert!(w.call_id[..32]
        .iter()
        .all(|c| c.is_ascii_digit() || (b'a'..=b'f').contains(c)));
    assert!(w.call_id.ends_with(b"example.com"));
    let w2 = MessageWriter::new(Uri::new(b"sip:alice@example.com".to_vec()));
    assert_ne!(w.call_id, w2.call_id);
}

#[test]
fn writer_headers() {
    let mut w = MessageWriter::new(Uri::new(b"sip:alice@example.com".to_vec()));
    assert_eq!(w.cseq(), Header::CSeq(0, Method::Message));
    assert_eq!(w.max_forwards(), Header::MaxForwards(70));
    assert_eq!(w.user_agent(), Header::UserAgent(b"libsip 0.1.0".to_vec()));
    let via = Header::Via(b"SIP/2.0/UDP host".to_vec());
    let (hs, body) = w.write_message(
        b"hi".to_vec(),
        Uri::new(b"sip:bob@example.com".to_vec()),
        via.clone(),
    );
    assert_eq!(body, b"hi".to_vec());
    assert_eq!(hs.len(), 9);
    assert_eq!(hs[0], via);
    assert_eq!(hs[3], Header::CSeq(1, Method::Message));
    assert_eq!(hs[8], Header::ContentLength(2));
    let (hs2, _) = w.write_message(
        Vec::new(),
        Uri::new(b"sip:bob@example.com".to_vec()),
        Header::Via(b"SIP/2.0/UDP host".to_vec()),
    );
    assert_eq!(hs2[3], Header::CSeq(2, Method::Message));
    assert_eq!(hs2[8], Header::ContentLength(0));
}

#[test]
fn helper_reads_and_replies() {
    let mut hs = Headers::new();
    let from = Header::From(sip_headers::model::NamedHeader::new(Uri::new(
        b"sip:a@x".to_vec(),
    )));
    let to = Header::To(sip_headers::model::NamedHeader::new(Uri::new(b"sip:b@y".to_vec())));
    hs.push(from.clone());
    hs.push(to.clone());
    hs.push(Header::CallId(b"cid".to_vec()));
    hs.push(Header::CSeq(4, Method::Message));
    hs.push(Header::Via(b"via-line".to_vec()));
    let helper = MessageHelper::new(Uri::new(b"sip:b@y".to_vec()), hs, b"data".to_vec())
        .unwrap();
    assert_eq!(helper.data(), b"data".to_vec());
    assert_eq!(helper.from().unwrap().uri.raw, b"sip:a@x".to_vec());
    assert_eq!(helper.to().unwrap().uri.raw, b"sip:b@y".to_vec());
    assert_eq!(helper.call_id().unwrap(), b"cid".to_vec());
    assert_eq!(helper.via().unwrap(), b"via-line".to_vec());
    assert!(helper.contact().is_err());
    let reply = helper.received();
    assert_eq!(reply.len(), 6);
    assert_eq!(reply[0], from);
    assert_eq!(reply[1], to);
    assert_eq!(reply[5], Header::ContentLength(0));
}
