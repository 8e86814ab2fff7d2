use mirakc::access::is_allowed_peer;
use mirakc::access::is_private_ip_addr;
use mirakc::access::IpAddrRepr;
use mirakc::errors::Error;
use mirakc::escape::escape;
use mirakc::filter_setting::FilterSetting;
use mirakc::streaming::classify_first_peek;
use mirakc::streaming::record_stream_start;
use mirakc::streaming::FirstPeek;
use mirakc::streaming::StreamRange;

fn do_test(query: &str) -> Result<FilterSetting, Error> {
    let stripped = query.strip_prefix('?').unwrap_or(query);
    FilterSetting::parse(stripped)
}

#[test]
fn test_filter_setting() {
    let v = do_test("").unwrap();
    assert!(!v.decode);
    assert!(v.pre_filters.is_empty());
    assert!(v.post_filters.is_empty());

    let v = do_test("?unknown=0").unwrap();
    assert!(!v.decode);
    assert!(v.pre_filters.is_empty());
    assert!(v.post_filters.is_empty());

    let v = do_test("?decode=0").unwrap();
    assert!(!v.decode);
    assert!(v.pre_filters.is_empty());
    assert!(v.post_filters.is_empty());

    let v = do_test("?decode=1").unwrap();
    assert!(v.decode);
    assert!(v.pre_filters.is_empty());
    assert!(v.post_filters.is_empty());

    let v = do_test("?decode=false").unwrap();
    assert!(!v.decode);
    assert!(v.pre_filters.is_empty());
    assert!(v.post_filters.is_empty());

    let v = do_test("?decode=true").unwrap();
    assert!(v.decode);
    assert!(v.pre_filters.is_empty());
    assert!(v.post_filters.is_empty());

    assert!(do_test("?decode=x").is_err());

    let v = do_test("?pre-filters[]=a").unwrap();
    assert!(!v.decode);
    assert_eq!(v.pre_filters.len(), 1);
    assert_eq!(v.pre_filters[0], "a".to_string());
    assert!(v.post_filters.is_empty());

    let v = do_test("?pre-filters[]=a&pre-filters[]=b").unwrap();
    assert!(!v.decode);
    assert_eq!(v.pre_filters.len(), 2);
    assert_eq!(v.pre_filters[0], "a".to_string());
    assert_eq!(v.pre_filters[1], "b".to_string());
    assert!(v.post_filters.is_empty());

    let v = do_test("?pre-filters[0]=a").unwrap();
    assert!(!v.decode);
    assert_eq!(v.pre_filters.len(), 1);
    assert_eq!(v.pre_filters[0], "a".to_string());
    assert!(v.post_filters.is_empty());

    let v = do_test("?pre-filters[0]=a&pre-filters[1]=b").unwrap();
    assert!(!v.decode);
    assert_eq!(v.pre_filters.len(), 2);
    assert_eq!(v.pre_filters[0], "a".to_string());
    assert_eq!(v.pre_filters[1], "b".to_string());
    assert!(v.post_filters.is_empty());

    let v = do_test("?pre-filters[1]=a").unwrap();
    assert!(!v.decode);
    assert_eq!(v.pre_filters.len(), 1);
    assert_eq!(v.pre_filters[0], "a".to_string());
    assert!(v.post_filters.is_empty());

    let v = do_test("?pre-filters[1]=a&pre-filters[2]=b").unwrap();
    assert!(!v.decode);
    assert_eq!(v.pre_filters.len(), 2);
    assert_eq!(v.pre_filters[0], "a".to_string());
    assert_eq!(v.pre_filters[1], "b".to_string());
    assert!(v.post_filters.is_empty());

    assert!(do_test("?pre-filters=a").is_err());
    assert!(do_test("?pre-filters[x]=a").is_err());
    assert!(do_test("?pre-filters[0]=a&pre-filters[0]=b").is_err());

    let v = do_test("?decode=1&pre-filters[]=a&post-filters[]=b").unwrap();
    assert!(v.decode);
    assert_eq!(v.pre_filters.len(), 1);
    assert_eq!(v.pre_filters[0], "a".to_string());
    assert_eq!(v.post_filters.len(), 1);
    assert_eq!(v.post_filters[0], "b".to_string());

    let v = do_test("?pre-filters[]=a&decode=1&post-filters[]=b").unwrap();
    assert!(v.decode);
    assert_eq!(v.pre_filters.len(), 1);
    assert_eq!(v.pre_filters[0], "a".to_string());
    assert_eq!(v.post_filters.len(), 1);
    assert_eq!(v.post_filters[0], "b".to_string());
}

#[test]
fn test_filter_setting_percent_decoding() {
    let v = do_test("?pre-filters[]=a+b%2Fc").unwrap();
    assert_eq!(v.pre_filters[0], "a b/c".to_string());
    // A multi-byte escape decodes as UTF-8, one character per code point.
    let v = do_test("?pre-filters[]=caf%C3%A9").unwrap();
    assert_eq!(v.pre_filters[0], "caf\u{e9}".to_string());
    assert_eq!(v.pre_filters[0].chars().count(), 4);
    assert!(do_test("?pre-filters[]=a%2").is_err());
    assert!(do_test("?pre-filters[]=a%zz").is_err());
    // Bytes that are not well-formed UTF-8 have no reading.
    assert!(do_test("?pre-filters[]=a%FF").is_err());
}

#[test]
fn test_is_private_ip_addr() {
    assert!(is_private_ip_addr(&IpAddrRepr::V4(127, 0, 0, 1)));
    assert!(is_private_ip_addr(&IpAddrRepr::V4(10, 0, 0, 1)));
    assert!(is_private_ip_addr(&IpAddrRepr::V4(172, 16, 0, 1)));
    assert!(is_private_ip_addr(&IpAddrRepr::V4(192, 168, 0, 1)));
    assert!(!is_private_ip_addr(&IpAddrRepr::V4(8, 8, 8, 8)));
}

#[test]
fn test_is_private_ip_addr_v6() {
    // The IPv6 loopback is allowed in its own right.
    let mut loopback = [0u8; 16];
    loopback[15] = 1;
    assert!(is_private_ip_addr(&IpAddrRepr::V6(loopback)));
    // The unspecified address is not.
    assert!(!is_private_ip_addr(&IpAddrRepr::V6([0u8; 16])));

    let mut mapped = [0u8; 16];
    mapped[10] = 0xff;
    mapped[11] = 0xff;
    mapped[12] = 192;
    mapped[13] = 168;
    mapped[14] = 0;
    mapped[15] = 1;
    assert!(is_private_ip_addr(&IpAddrRepr::V6(mapped)));

    let mut public = mapped;
    public[12] = 8;
    public[13] = 8;
    public[14] = 8;
    public[15] = 8;
    assert!(!is_private_ip_addr(&IpAddrRepr::V6(public)));

    let mut not_mapped = mapped;
    not_mapped[0] = 0x20;
    assert!(!is_private_ip_addr(&IpAddrRepr::V6(not_mapped)));
}

#[test]
fn test_access_control() {
    // An addressed peer must be private; a Unix-domain peer has no
    // address and is always allowed.
    assert!(is_allowed_peer(&Some(IpAddrRepr::V4(127, 0, 0, 1))));
    assert!(!is_allowed_peer(&Some(IpAddrRepr::V4(8, 8, 8, 8))));
    assert!(is_allowed_peer(&None));
}

#[test]
fn test_escape() {
    assert_eq!("a&lt;a&gt;a&amp;a&#39;a&quot;a", escape(r#"a<a>a&a'a"a"#));
}

#[test]
fn test_do_streaming() {
    assert_eq!(
        classify_first_peek(FirstPeek::EndOfStream),
        Err(Error::ProgramNotFound)
    );
    assert_eq!(
        classify_first_peek(FirstPeek::TimedOut),
        Err(Error::StreamingTimedOut)
    );
    assert_eq!(classify_first_peek(FirstPeek::Chunk), Ok(()));
}

#[test]
fn test_stream_range() {
    let range = StreamRange::new(100, 1000).unwrap();
    assert!(range.is_partial());
    assert_eq!(range.bytes(), 900);
    assert_eq!(range.make_content_range(), "bytes 100-999/1000");

    let whole = StreamRange::new(0, 1000).unwrap();
    assert!(!whole.is_partial());

    assert_eq!(StreamRange::new(1000, 1000), Err(Error::OutOfRange));
}

#[test]
fn test_record_stream_start() {
    assert_eq!(
        record_stream_start(&Some("bytes=100-".to_string()), 1000),
        Some(100)
    );
    assert_eq!(
        record_stream_start(&Some("bytes=100-199".to_string()), 1000),
        Some(100)
    );
    // A suffix range asks for the last bytes.
    assert_eq!(
        record_stream_start(&Some("bytes=-200".to_string()), 1000),
        Some(800)
    );
    // An unreadable header yields no start.
    assert_eq!(record_stream_start(&Some("pages=1-2".to_string()), 1000), None);
    assert_eq!(record_stream_start(&None, 1000), None);
    // A suffix range of an empty body clamps to its start; the range
    // constructor then rejects it.
    assert_eq!(record_stream_start(&Some("bytes=-1".to_string()), 0), Some(0));
    assert_eq!(StreamRange::new(0, 0), Err(Error::OutOfRange));
}

#[test]
fn test_error_status_codes() {
    assert_eq!(Error::StreamingTimedOut.status_code(), 408);
    assert_eq!(Error::TunerUnavailable.status_code(), 404);
    assert_eq!(Error::ChannelNotFound.status_code(), 404);
    assert_eq!(Error::ServiceNotFound.status_code(), 404);
    assert_eq!(Error::ProgramNotFound.status_code(), 404);
    assert_eq!(Error::RecordNotFound.status_code(), 404);
    assert_eq!(Error::OutOfRange.status_code(), 416);
    assert_eq!(Error::NoContent.status_code(), 204);
    assert_eq!(Error::AccessDenied.status_code(), 403);
    assert_eq!(Error::IoError.status_code(), 500);
}
