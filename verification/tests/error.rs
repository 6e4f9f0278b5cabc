use backflow::error::err;
use backflow::error::{AppError, ClientFacingError, ErrorKind, ErrorResponse};
use backflow::text::{
    comes_before, decimal, distinct, ends_with, insert_ordered, join, lower_is, parse_byte, rfind, split,
    starts_with, strip_prefix, trim, trim_end,
};

#[test]
fn kinds_and_codes() {
    let parse = AppError::Parse("x".to_string());
    assert_eq!(parse.kind(), ErrorKind::Parse);
    assert_eq!(parse.code(), "parse_error");
    assert_eq!(parse.to_string(), "parse error: x");
    let io = AppError::Io("y".to_string());
    assert_eq!(io.kind(), ErrorKind::Io);
    assert_eq!(io.code(), "io_error");
    assert_eq!(io.to_string(), "not found: y");
    let internal = AppError::Internal("z".to_string());
    assert_eq!(internal.kind(), ErrorKind::Internal);
    assert_eq!(internal.code(), "internal_error");
    assert_eq!(internal.to_string(), "internal error: z");
    assert!(matches!(err::parse("a"), AppError::Parse(m) if m == "a"));
    assert!(matches!(err::internal("b"), AppError::Internal(m) if m == "b"));
}

#[test]
fn names_of_kinds() {
    for (kind, name) in [
        (ErrorKind::Parse, "parse"),
        (ErrorKind::Validation, "validation"),
        (ErrorKind::NotFound, "not_found"),
        (ErrorKind::Permission, "permission"),
        (ErrorKind::Io, "io"),
        (ErrorKind::Internal, "internal"),
    ] {
        assert_eq!(kind.name(), name);
        assert_eq!(kind.to_string(), format!("\"{name}\""));
    }
}

#[test]
fn errors_for_clients() {
    let error = ClientFacingError::from(AppError::Parse("bad".to_string()));
    assert_eq!(error.code, "parse_error");
    assert_eq!(error.message, "parse error: bad");
    assert_eq!(error.raw, None);
    assert_eq!(error.with_raw("{").raw, Some("{".to_string()));

    let response = ErrorResponse::from(AppError::Internal("oops".to_string()));
    assert_eq!(response.error, "internal_error");
    assert_eq!(response.message, "internal error: oops");
}

#[test]
fn failed_io_operations() {
    let failed = std::io::Error::new(std::io::ErrorKind::Other, "broken pipe");
    let error = AppError::from(failed);
    assert_eq!(error.kind(), ErrorKind::Io);
    assert_eq!(error.to_string(), "not found: broken pipe");
}

#[test]
fn texts() {
    assert_eq!(trim("\u{3000} a b\t"), "a b");
    assert_eq!(trim_end(" a \n"), " a");
    assert_eq!(split("a,,b", ','), vec!["a".to_string(), String::new(), "b".to_string()]);
    assert_eq!(join(&split("a,,b", ','), ","), "a,,b");
    assert_eq!(decimal(18446744073709551615), "18446744073709551615");
    assert_eq!(parse_byte("255"), Some(255));
    assert_eq!(parse_byte("256"), None);
    assert_eq!(parse_byte("+007"), Some(7));
    assert_eq!(parse_byte("-1"), None);
    assert_eq!(parse_byte("+"), None);
    assert_eq!(parse_byte(""), None);
    assert_eq!(rfind("a@b@c", '@'), Some(3));
    assert_eq!(rfind("abc", '@'), None);
    assert!(lower_is("YeS", "yes"));
    assert!(!lower_is("\u{212a}", "k"));
    assert!(starts_with("abc", "ab"));
    assert!(ends_with("abc", "bc"));
    assert_eq!(strip_prefix("abc", "ab"), Some("c".to_string()));
    assert_eq!(strip_prefix("abc", "b"), None);
    assert!(comes_before("", "a"));
    assert!(comes_before("Z", "a"));
    assert!(!comes_before("a", "a"));
    let list = vec!["b".to_string(), "a".to_string(), "b".to_string(), "\u{e9}".to_string()];
    let mut sorted = list.clone();
    sorted.sort();
    sorted.dedup();
    let mut arranged: Vec<String> = Vec::new();
    for text in &list {
        insert_ordered(&mut arranged, text.clone());
    }
    assert_eq!(arranged, sorted);
    assert_eq!(
        distinct(&list),
        vec!["b".to_string(), "a".to_string(), "\u{e9}".to_string()]
    );
}
