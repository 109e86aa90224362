use nonogram_fetcher::document::image_size;
use nonogram_fetcher::document::{content_json, document_files, footer, metadata_json, uuid_from_nanos};
use nonogram_fetcher::numbers::{decimal_string, parse_u32, parse_usize, push_hex};
use nonogram_fetcher::text::escape_quotes_in;

#[test]
fn uuid_of_zero() {
    assert_eq!(uuid_from_nanos(0), "00000000-0000-4000-8000-000000000000");
}

#[test]
fn uuid_exact_values() {
    assert_eq!(
        uuid_from_nanos(0x0123456789abcdef_fedcba9876543210),
        "76543210-ba98-4edc-9eff-5a2e74f2bcd0"
    );
    assert_eq!(uuid_from_nanos(1700000000123456789), "3d85cd15-9cfe-4797-8001-51a9ca7b77b1");
}

#[test]
fn uuid_shape() {
    for t in [1u128, 12345, u128::MAX, 1u128 << 100, 987654321987654321] {
        let u = uuid_from_nanos(t);
        let c: Vec<char> = u.chars().collect();
        assert_eq!(c.len(), 36);
        for i in [8, 13, 18, 23] {
            assert_eq!(c[i], '-');
        }
        assert_eq!(c[14], '4');
        assert!(matches!(c[19], '8' | '9' | 'a' | 'b'));
    }
}

#[test]
fn metadata_escapes_quotes() {
    assert_eq!(
        metadata_json(1234, "Say \"hi\""),
        "{\"deleted\":false,\"lastModified\":\"1234\",\"lastOpened\":\"\",\"lastOpenedPage\":0,\"metadatamodified\":false,\"modified\":false,\"parent\":\"\",\"pinned\":false,\"synced\":false,\"type\":\"DocumentType\",\"version\":1,\"visibleName\":\"Say \\\"hi\\\"\"}"
    );
    assert_eq!(escape_quotes_in("a\"b\"\""), "a\\\"b\\\"\\\"");
    assert_eq!(escape_quotes_in("plain"), "plain");
}

#[test]
fn content_sidecar() {
    let c = content_json();
    assert!(c.starts_with("{\"dummyDocument\":false,"));
    assert!(c.contains("\"fileType\":\"pdf\""));
    assert!(c.contains("\"pageCount\":1"));
    assert!(c.ends_with("\"transform\":{}}"));
}

#[test]
fn file_names() {
    let f = document_files(42, "Nonogram #42");
    assert_eq!(f.pdf, "nonogram_42_Nonogram #42.pdf");
    assert_eq!(f.metadata, "nonogram_42_Nonogram #42.metadata");
    assert_eq!(f.content, "nonogram_42_Nonogram #42.content");
    assert_eq!(f.thumbnails_dir, "nonogram_42_Nonogram #42.thumbnails");
    assert_eq!(f.thumbnail, "0.png");
    assert_eq!(footer(1234), "nonograms.org  |  puzzle #1234");
}

#[test]
fn numerals() {
    assert_eq!(decimal_string(0), "0");
    assert_eq!(decimal_string(9), "9");
    assert_eq!(decimal_string(10), "10");
    assert_eq!(decimal_string(u128::MAX), "340282366920938463463374607431768211455");
    let mut s = String::new();
    push_hex(&mut s, 0xbeef, 6);
    assert_eq!(s, "00beef");
    let mut s = String::new();
    push_hex(&mut s, 0x12345, 3);
    assert_eq!(s, "345");
}

#[test]
fn parsing_numerals() {
    let c = |s: &str| s.chars().collect::<Vec<char>>();
    assert_eq!(parse_u32(&c("0")), Some(0));
    assert_eq!(parse_u32(&c("007")), Some(7));
    assert_eq!(parse_u32(&c("+12")), Some(12));
    assert_eq!(parse_u32(&c("+")), None);
    assert_eq!(parse_u32(&c("")), None);
    assert_eq!(parse_u32(&c("-1")), None);
    assert_eq!(parse_u32(&c("1 2")), None);
    assert_eq!(parse_u32(&c("4294967295")), Some(u32::MAX));
    assert_eq!(parse_u32(&c("4294967296")), None);
    assert_eq!(parse_u32(&c("99999999999999999999999")), None);
    assert_eq!(parse_usize(&c("18")), Some(18));
    for s in ["0", "+3", "12a", "", "4294967296", "-0", "١٢"] {
        assert_eq!(parse_u32(&c(s)), s.parse::<u32>().ok(), "{:?}", s);
    }
}

#[test]
fn numerals_read_back() {
    for n in [0u32, 1, 9, 10, 4096, u32::MAX] {
        let s: Vec<char> = decimal_string(n as u128).chars().collect();
        assert_eq!(parse_u32(&s), Some(n));
    }
}

#[test]
fn png_size() {
    let png: Vec<u8> = vec![
        137, 80, 78, 71, 13, 10, 26, 10, 0, 0, 0, 13, 73, 72, 68, 82, 0, 0, 0, 3, 0, 0, 0, 2, 8, 2,
        0, 0, 0, 18, 22, 241, 77, 0, 0, 0, 11, 73, 68, 65, 84, 120, 156, 99, 96, 192, 4, 0, 0, 20, 0,
        1, 125, 254, 30, 238, 0, 0, 0, 0, 73, 69, 78, 68, 174, 66, 96, 130,
    ];
    assert_eq!(image_size(&png), Ok((3, 2)));
    assert!(image_size(b"not a png").is_err());
}

#[test]
fn distinct_readings_distinct_names() {
    let a = uuid_from_nanos(1_700_000_000_000_000_000);
    let b = uuid_from_nanos(1_700_000_000_000_000_001);
    let c = uuid_from_nanos(1_700_000_000_000_000_000 + (1u128 << 60));
    assert_ne!(a, b);
    assert_ne!(a, c);
}
