use arx::compression::CompressionPredicate;
use arx::config::{
    to_allow_methods, to_headernames, Any, ArxConfig, CompressionLevel, Jitter, Level, Method,
    OrAny,
};
use arx::text::read_u64;
use http::header::{CONTENT_LENGTH, CONTENT_TYPE};
use http::HeaderValue;

fn default_config() -> ArxConfig {
    ArxConfig::default()
}

/// A response with a body of `size` bytes and no headers.
fn mock_response(size: usize) -> (http::HeaderMap, Option<u64>) {
    let mock_body: String = (0..size).map(|_| 'A').collect();
    (http::HeaderMap::new(), Some(mock_body.len() as u64))
}

#[test]
fn http_should_compress_when_bigger_than_default_min() {
    let cfg = default_config();
    let compression_predicate = CompressionPredicate { cfg: &cfg };
    let (headers, size) = mock_response(64);
    assert!(compression_predicate.should_compress(&headers, size));
}

#[test]
fn http_should_not_compress_when_smaller_than_default_min() {
    let cfg = default_config();
    let compression_predicate = CompressionPredicate { cfg: &cfg };
    let (headers, size) = mock_response(22);
    assert!(!compression_predicate.should_compress(&headers, size));
}

#[test]
fn http_should_compress_when_bigger_than_custom_size() {
    let cfg = ArxConfig { http_compression_min_size: 64, ..default_config() };
    let compression_predicate = CompressionPredicate { cfg: &cfg };
    let (headers, size) = mock_response(82);
    assert!(compression_predicate.should_compress(&headers, size));
}

#[test]
fn http_should_not_compress_when_smaller_than_custom_size() {
    let cfg = ArxConfig { http_compression_min_size: 64, ..default_config() };
    let compression_predicate = CompressionPredicate { cfg: &cfg };
    let (headers, size) = mock_response(34);
    assert!(!compression_predicate.should_compress(&headers, size));
}

#[test]
fn http_should_not_compress_exempt_content_type() {
    let cfg = ArxConfig {
        http_compression_exempt_content_types: vec![
            "audio/mpeg".to_string(),
            "video/mp4".to_string(),
        ],
        ..default_config()
    };
    let compression_predicate = CompressionPredicate { cfg: &cfg };
    let (mut headers, size) = mock_response(34);
    headers.append(CONTENT_TYPE, HeaderValue::try_from("audio/mpeg").unwrap());
    assert!(!compression_predicate.should_compress(&headers, size));
}

#[test]
fn http_should_not_compress_image_by_default() {
    let cfg = default_config();
    let compression_predicate = CompressionPredicate { cfg: &cfg };
    let (mut headers, size) = mock_response(34);
    headers.append(CONTENT_TYPE, HeaderValue::try_from("image/jpeg").unwrap());
    assert!(!compression_predicate.should_compress(&headers, size));
}

#[test]
fn http_should_compress_svg_by_default() {
    let cfg = default_config();
    let compression_predicate = CompressionPredicate { cfg: &cfg };
    let (mut headers, size) = mock_response(34);
    headers.append(CONTENT_TYPE, HeaderValue::try_from("image/svg+xml").unwrap());
    assert!(compression_predicate.should_compress(&headers, size));
}

#[test]
fn http_should_compress_image() {
    let cfg = ArxConfig { http_compression_compress_images: true, ..default_config() };
    let compression_predicate = CompressionPredicate { cfg: &cfg };
    let (mut headers, size) = mock_response(34);
    headers.append(CONTENT_TYPE, HeaderValue::try_from("image/jpeg").unwrap());
    assert!(compression_predicate.should_compress(&headers, size));
}

#[test]
fn images_and_exempt_types() {
    let cfg = default_config();
    let predicate = CompressionPredicate { cfg: &cfg };
    let mut jpeg = http::HeaderMap::new();
    jpeg.insert(CONTENT_TYPE, HeaderValue::from_static("image/jpeg"));
    assert!(!predicate.should_compress(&jpeg, Some(10_000)));
    let mut svg = http::HeaderMap::new();
    svg.insert(CONTENT_TYPE, HeaderValue::from_static("image/svg+xml"));
    assert!(predicate.should_compress(&svg, Some(10_000)));

    let images = ArxConfig { http_compression_compress_images: true, ..default_config() };
    assert!(CompressionPredicate { cfg: &images }.should_compress(&jpeg, Some(10_000)));

    let exempt = ArxConfig {
        http_compression_exempt_content_types: vec!["audio/mpeg".to_string()],
        ..default_config()
    };
    let mut audio = http::HeaderMap::new();
    audio.insert(CONTENT_TYPE, HeaderValue::from_static("audio/mpeg"));
    for size in [Some(0), Some(10_000), Some(u64::MAX), None] {
        assert!(!CompressionPredicate { cfg: &exempt }.should_compress(&audio, size));
    }
}

#[test]
fn compression_reads_content_length() {
    let cfg = default_config();
    let predicate = CompressionPredicate { cfg: &cfg };
    let mut small = http::HeaderMap::new();
    small.insert(CONTENT_LENGTH, HeaderValue::from_static("31"));
    assert!(!predicate.should_compress(&small, None));
    // the body's own size goes first
    assert!(predicate.should_compress(&small, Some(32)));
    let mut exact = http::HeaderMap::new();
    exact.insert(CONTENT_LENGTH, HeaderValue::from_static("32"));
    assert!(predicate.should_compress(&exact, None));
    let mut unreadable = http::HeaderMap::new();
    unreadable.insert(CONTENT_LENGTH, HeaderValue::from_static("3 1"));
    assert!(predicate.should_compress(&unreadable, None));
    assert!(predicate.should_compress(&http::HeaderMap::new(), None));
}

#[test]
fn read_u64_follows_std() {
    for text in ["0", "7", "+7", "007", "18446744073709551615", "18446744073709551616", "", "+",
        "-1", "1_0", " 1", "1 ", "99999999999999999999999", "٣"]
    {
        assert_eq!(read_u64(text), text.parse::<u64>().ok(), "{text}");
    }
    assert_eq!(read_u64("18446744073709551615"), Some(u64::MAX));
    assert_eq!(read_u64("18446744073709551616"), None);
}

#[test]
fn default_configuration() {
    let cfg = ArxConfig::default();
    assert_eq!(cfg.log_level, "INFO");
    assert!(!cfg.access_log);
    assert_eq!(cfg.authly_url, "https://authly");
    assert_eq!(cfg.request_max_size, 20_000_000_000);
    assert_eq!(cfg.connect_timeout, 60_000);
    assert_eq!(cfg.request_timeout, 60_000);
    assert_eq!(cfg.response_timeout, 60_000);
    assert_eq!(cfg.keep_alive_timeout, 15_000);
    assert!(!cfg.http_accept_invalid_certs);
    assert!(cfg.use_root_certs);
    assert!(cfg.use_webpki_certs);
    assert_eq!(cfg.backoff_min_retry_interval, 1_000);
    assert_eq!(cfg.backoff_max_retry_interval, 1_800_000);
    assert_eq!(cfg.backoff_max_num_retries, 30);
    assert_eq!(cfg.backoff_jitter, Jitter::Full);
    assert_eq!(cfg.http_compression_level, CompressionLevel(Level::Default));
    assert_eq!(cfg.http_compression_min_size, 32);
    assert!(!cfg.http_compression_compress_images);
    assert!(cfg.http_compression_exempt_content_types.is_empty());
    assert_eq!(cfg.cors_allow_origin, "*");
    assert_eq!(cfg.cors_allow_methods, vec![Method::Any]);
    assert_eq!(cfg.cors_allow_headers, vec!["*"]);
    assert_eq!(
        cfg.cors_expose_headers,
        vec![
            "cache-control",
            "content-language",
            "content-length",
            "content-type",
            "expires",
            "last-modified",
            "pragma"
        ]
    );
    assert!(!cfg.cors_allow_credentials);
    assert!(cfg.cors_allow_private_network);
    assert_eq!(cfg.cors_max_age, 60_000);
}

#[test]
fn compression_levels() {
    assert_eq!(CompressionLevel::from_str("fastest"), Ok(CompressionLevel(Level::Fastest)));
    assert_eq!(CompressionLevel::from_str("best"), Ok(CompressionLevel(Level::Best)));
    assert_eq!(CompressionLevel::from_str("default"), Ok(CompressionLevel(Level::Default)));
    assert_eq!(CompressionLevel::from_str("7"), Ok(CompressionLevel(Level::Precise(7))));
    assert_eq!(
        CompressionLevel::from_str("7x"),
        Err("ParseIntError: invalid digit found in string".to_string())
    );
    assert_eq!(
        CompressionLevel::from_str("99999999999"),
        Err("ParseIntError: number too large to fit in target type".to_string())
    );
    assert_eq!(
        CompressionLevel::from_str("-1"),
        Err("Unrecognized compression level".to_string())
    );
    assert_eq!(CompressionLevel::from_str(""), Err("Unrecognized compression level".to_string()));
    assert_eq!(
        CompressionLevel::from_str("Fastest"),
        Err("Unrecognized compression level".to_string())
    );
    for text in ["fastest", "best", "default", "0", "11", "2147483647"] {
        assert_eq!(CompressionLevel::from_str(text).unwrap().to_string(), text);
    }
    assert_eq!(CompressionLevel(Level::Precise(-12)).to_string(), "-12");
    assert_eq!(CompressionLevel(Level::Precise(i32::MIN)).to_string(), "-2147483648");
}

#[test]
fn cors_methods() {
    assert_eq!(
        to_allow_methods(&[Method::Get, Method::Post]),
        Ok(vec![Method::Get, Method::Post])
    );
    assert_eq!(to_allow_methods(&[Method::Get, Method::Any, Method::Post]), Err(Any));
    assert_eq!(to_allow_methods(&[]), Ok(vec![]));
}

#[test]
fn cors_header_names() {
    let OrAny::Given(names) =
        to_headernames(&["Content-Type".to_string(), "x-custom".to_string()])
    else {
        panic!()
    };
    assert_eq!(names, vec!["content-type", "x-custom"]);
    assert!(matches!(to_headernames(&["a".to_string(), "*".to_string()]), OrAny::Any));
    let OrAny::Given(names) = to_headernames(&[]) else { panic!() };
    assert!(names.is_empty());
}
