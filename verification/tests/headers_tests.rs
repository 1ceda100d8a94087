use sip_headers::SipError;
use sip_headers::model::{Header, NamedHeader, Uri};
use sip_headers::parse::{
    parse_allow_header, parse_date_header, parse_header, parse_header_or_other,
    parse_max_forwards_header, parse_mime_version_header, parse_named_field_params,
};
use sip_headers::vocab::{ContentType, Language, Method};
use sip_headers::write::serialize_header;

#[test]
fn allow_write() {
    let header = Header::Allow(vec![Method::Invite, Method::Options]);
    assert_eq!(b"Allow: INVITE,OPTIONS".to_vec(), serialize_header(&header));
}

#[test]
fn allow_read() {
    // Without its line terminator the array grammar does not match.
    assert!(parse_allow_header(b"Allow: REGISTER,INVITE ").is_err());
    let input = b"Allow: REGISTER,INVITE\r\n";
    let header = Header::Allow(vec![Method::Register, Method::Invite]);
    assert_eq!(Ok((header, input.len())), parse_allow_header(input));
}

#[test]
fn date_write() {
    let header = Header::Date(b"wed 1 2001".to_vec());
    assert_eq!(b"Date: wed 1 2001".to_vec(), serialize_header(&header));
}

#[test]
fn date_read() {
    // A bare newline is not the line terminator.
    assert!(parse_date_header(b"Date: wed 1 2001\n").is_err());
    let input = b"Date: wed 1 2001\r\n";
    let header = Header::Date(b"wed 1 2001".to_vec());
    assert_eq!(Ok((header, input.len())), parse_date_header(input));
}

#[test]
fn max_forwards_write() {
    let header = Header::MaxForwards(70);
    assert_eq!(b"Max-Forwards: 70".to_vec(), serialize_header(&header));
}

#[test]
fn max_forwards_read() {
    assert!(parse_max_forwards_header(b"Max-Forwards: 60 ").is_err());
    let input = b"Max-Forwards: 60\r\n";
    assert_eq!(Ok((Header::MaxForwards(60), input.len())), parse_max_forwards_header(input));
}

#[test]
fn mime_version_write() {
    let header = Header::MimeVersion(b"1".to_vec());
    assert_eq!(b"MIME-Version: 1".to_vec(), serialize_header(&header));
}

#[test]
fn mime_version_read() {
    assert!(parse_mime_version_header(b"MIME-Version: 1.0 ").is_err());
    let input = b"MIME-Version: 1.0\r\n";
    let header = Header::MimeVersion(b"1.0".to_vec());
    assert_eq!(Ok((header, input.len())), parse_mime_version_header(input));
}

#[test]
fn prefix_disambiguation() {
    let input = b"Accept-Encoding: application/sdp\r\n";
    let expected = Header::AcceptEncoding(ContentType::Sdp);
    assert_eq!(Ok((expected, input.len())), parse_header(input));
    let input2 = b"Accept: INVITE\r\n";
    assert_eq!(Ok((Header::Accept(vec![Method::Invite]), input2.len())), parse_header(input2));
    let input3 = b"Accept-Language: en\r\n";
    assert_eq!(
        Ok((Header::AcceptLanguage(Language::English), input3.len())),
        parse_header(input3)
    );
}

#[test]
fn param_map() {
    let input = b"To: \"Bob\" <sip:bob@example.com>;tag=xyz;foo=bar\r\n";
    let (h, n) = parse_header(input).unwrap();
    assert_eq!(n, input.len());
    match h {
        Header::To(nh) => {
            assert_eq!(nh.display_name, Some(b"Bob".to_vec()));
            assert_eq!(nh.uri.raw, b"sip:bob@example.com".to_vec());
            assert_eq!(nh.params.get(b"tag"), Some(b"xyz".to_vec()));
            assert_eq!(nh.params.get(b"foo"), Some(b"bar".to_vec()));
            assert_eq!(nh.params.len(), 2);
        },
        other => panic!("wrong variant: {:?}", other),
    }
}

#[test]
fn array_parse_serialize() {
    let input = b"Allow: INVITE,OPTIONS\r\n";
    let (h, n) = parse_header(input).unwrap();
    assert_eq!(n, input.len());
    assert_eq!(h, Header::Allow(vec![Method::Invite, Method::Options]));
    assert_eq!(serialize_header(&h), b"Allow: INVITE,OPTIONS".to_vec());
}

#[test]
fn malformed_numeric_fails() {
    assert_eq!(parse_header(b"Max-Forwards: abc\r\n"), Err(SipError::GrammarMismatch));
    assert_eq!(parse_header(b"Expires: 99999999999\r\n"), Err(SipError::FormatError));
    assert_eq!(parse_header(b"Expires: 4294967295\r\n").unwrap().0, Header::Expires(u32::MAX));
}

#[test]
fn unknown_header_tag() {
    assert_eq!(parse_header(b"X-Custom: v\r\n"), Err(SipError::NoMatchingHeader));
    let (h, n) = parse_header_or_other(b"X-Custom: v\r\n").unwrap();
    assert_eq!(n, 13);
    assert_eq!(h, Header::Other(b"X-Custom".to_vec(), b"v".to_vec()));
    assert_eq!(serialize_header(&h), b"X-Custom: v".to_vec());
}

#[test]
fn cseq_round_trip() {
    let input = b"CSeq: 1 INVITE\r\n";
    let (h, n) = parse_header(input).unwrap();
    assert_eq!(n, input.len());
    assert_eq!(h, Header::CSeq(1, Method::Invite));
    assert_eq!(serialize_header(&h), b"CSeq: 1 INVITE".to_vec());
}

#[test]
fn content_type_vocabulary() {
    let (h, _) = parse_header(b"Content-Type: application/sdp\r\n").unwrap();
    assert_eq!(h, Header::ContentType(ContentType::Sdp));
    let (h2, _) = parse_header(b"Content-Type: text/plain\r\n").unwrap();
    assert_eq!(h2, Header::ContentType(ContentType::PlainText));
    // A token outside the closed vocabulary is a hard parse failure.
    assert_eq!(
        parse_header(b"Content-Type: application/json\r\n"),
        Err(SipError::GrammarMismatch)
    );
    assert_eq!(parse_header(b"Content-Language: en\r\n").unwrap().0,
        Header::ContentLanguage(Language::English));
}

#[test]
fn empty_array_is_malformed() {
    assert!(parse_header(b"Allow: \r\n").is_err());
    assert!(parse_allow_header(b"Allow: \r\n").is_err());
}

#[test]
fn supported_words_round_trip() {
    let input = b"Supported: path,gruu\r\n";
    let (h, n) = parse_header(input).unwrap();
    assert_eq!(n, input.len());
    assert_eq!(h, Header::Supported(vec![b"path".to_vec(), b"gruu".to_vec()]));
    assert_eq!(serialize_header(&h), b"Supported: path,gruu".to_vec());
}

#[test]
fn named_without_display_round_trip() {
    let input = b"From: <sip:a@b>\r\n";
    let (h, n) = parse_header(input).unwrap();
    assert_eq!(n, input.len());
    match &h {
        Header::From(nh) => {
            assert_eq!(nh.display_name, None);
            assert_eq!(nh.uri.raw, b"sip:a@b".to_vec());
            assert_eq!(nh.params.len(), 0);
        },
        other => panic!("wrong variant: {:?}", other),
    }
    assert_eq!(serialize_header(&h), b"From: <sip:a@b>".to_vec());
}

#[test]
fn named_serialize_quotes_display() {
    let nh = NamedHeader {
        display_name: Some(b"Alice".to_vec()),
        uri: Uri::new(b"sip:alice@example.com".to_vec()),
        params: parse_named_field_params(b";tag=abc").0,
    };
    let h = Header::To(nh);
    assert_eq!(
        serialize_header(&h),
        b"To: \"Alice\" <sip:alice@example.com>;tag=abc".to_vec()
    );
    let line = b"To: \"Alice\" <sip:alice@example.com>;tag=abc\r\n";
    let (back, _) = parse_header(line).unwrap();
    assert_eq!(back, h);
}

#[test]
fn params_duplicate_key_overwrites() {
    let (ps, consumed) = parse_named_field_params(b";a=1;a=2");
    assert_eq!(consumed, 8);
    assert_eq!(ps.len(), 1);
    assert_eq!(ps.get(b"a"), Some(b"2".to_vec()));
    // The scan is non-fatal: trailing text that is no parameter stays.
    let (ps2, consumed2) = parse_named_field_params(b";k=v\r\n");
    assert_eq!(consumed2, 4);
    assert_eq!(ps2.get(b"k"), Some(b"v".to_vec()));
}

#[test]
fn tag_needs_colon_delimiter() {
    // A tag literal followed by something other than optional spaces and a
    // colon matches no grammar.
    assert_eq!(parse_header(b"Accept INVITE\r\n"), Err(SipError::NoMatchingHeader));
    // Spaces before the colon are accepted.
    let input = b"Expires : 30\r\n";
    assert_eq!(Ok((Header::Expires(30), input.len())), parse_header(input));
}
