use notifieru::secrets::check_val_empty;
use notifieru::secrets::parse_secrets;
use notifieru::secrets::Secret;

#[test]
fn test_read_secrets_success() {
    let file_content = "DB_URL=http://localhost:1234
API_KEY=myapikey";

    let result = parse_secrets(file_content, "<secrets_file>");

    assert!(result.is_ok());
    let Secret { db_url, api_key } = result.unwrap();
    assert_eq!(db_url, "http://localhost:1234");
    assert_eq!(api_key, "myapikey");
}

#[test]
fn test_read_secrets_missing_db_url() {
    let file_content = r"API_KEY=myapikey";

    let result = parse_secrets(file_content, "<secrets_file>");

    assert!(result.is_err());
    assert_eq!(
        result.unwrap_err(),
        "DB_URL value not found in <secrets_file>"
    );
}

#[test]
fn test_read_secrets_missing_api_key() {
    let file_content = r"DB_URL=http://localhost:1234";

    let result = parse_secrets(file_content, "<secrets_file>");

    assert!(result.is_err());
    assert_eq!(
        result.unwrap_err(),
        "API_KEY value not found in <secrets_file>"
    );
}

#[test]
fn test_read_secrets_invalid_key() {
    let file_content = r"DB_URL=http://localhost:1234
INVALID_KEY=value
API_KEY=myapikey";

    let result = parse_secrets(file_content, "<secrets_file>");

    assert!(result.is_err());
    assert_eq!(
        result.unwrap_err(),
        "unexpected key 'INVALID_KEY' at <secrets_file>:2"
    );
}

#[test]
fn test_read_secrets_invalid_line_format() {
    let file_content = r"DB_URL=http://localhost:1234
API_KEY:myapikey";

    let result = parse_secrets(file_content, "<secrets_file>");

    assert!(result.is_err());
    assert_eq!(
        result.unwrap_err(),
        "invalid line format at <secrets_file>:2"
    );
}

#[test]
fn test_read_secrets_empty_value() {
    let file_content = r"DB_URL=
API_KEY=myapikey";

    let result = parse_secrets(file_content, "<secrets_file>");

    assert!(result.is_err());
    assert_eq!(result.unwrap_err(), "value is empty at <secrets_file>:1");
}

#[test]
fn test_read_secrets_order_swapped() {
    let file_content = "API_KEY=myapikey\nDB_URL=http://localhost:1234";

    let result = parse_secrets(file_content, "<secrets_file>");

    assert!(result.is_ok());
    let Secret { db_url, api_key } = result.unwrap();
    assert_eq!(db_url, "http://localhost:1234");
    assert_eq!(api_key, "myapikey");
}

#[test]
fn test_read_secrets_values_trimmed() {
    let file_content = "DB_URL=  http://localhost:1234  \nAPI_KEY=\tmyapikey\t";

    let result = parse_secrets(file_content, "<secrets_file>");

    assert!(result.is_ok());
    let Secret { db_url, api_key } = result.unwrap();
    assert_eq!(db_url, "http://localhost:1234");
    assert_eq!(api_key, "myapikey");
}

#[test]
fn test_read_secrets_value_keeps_later_equals() {
    let file_content = "DB_URL=http://h/q?a=b=c\nAPI_KEY=k";

    let result = parse_secrets(file_content, "<secrets_file>");

    assert_eq!(result.unwrap().db_url, "http://h/q?a=b=c");
}

#[test]
fn test_read_secrets_duplicate_key_last_wins() {
    let file_content = "DB_URL=first\nDB_URL=second\nAPI_KEY=k";

    let result = parse_secrets(file_content, "<secrets_file>");

    assert_eq!(result.unwrap().db_url, "second");
}

#[test]
fn test_read_secrets_crlf_lines() {
    let file_content = "DB_URL=http://localhost:1234\r\nAPI_KEY=myapikey";

    let result = parse_secrets(file_content, "<secrets_file>");

    assert!(result.is_ok());
    let Secret { db_url, api_key } = result.unwrap();
    assert_eq!(db_url, "http://localhost:1234");
    assert_eq!(api_key, "myapikey");
}

#[test]
fn test_read_secrets_trailing_newline() {
    let file_content = "DB_URL=a\nAPI_KEY=b\n";

    let result = parse_secrets(file_content, "<secrets_file>");

    assert!(result.is_ok());
}

#[test]
fn test_read_secrets_blank_line_rejected() {
    let file_content = "DB_URL=a\n\nAPI_KEY=b";

    let result = parse_secrets(file_content, "<secrets_file>");

    assert_eq!(
        result.unwrap_err(),
        "invalid line format at <secrets_file>:2"
    );
}

#[test]
fn test_read_secrets_whitespace_value_is_empty() {
    let file_content = "DB_URL=   \nAPI_KEY=myapikey";

    let result = parse_secrets(file_content, "<secrets_file>");

    assert_eq!(result.unwrap_err(), "value is empty at <secrets_file>:1");
}

#[test]
fn test_read_secrets_empty_content_misses_db_url() {
    let result = parse_secrets("", "<secrets_file>");

    assert_eq!(
        result.unwrap_err(),
        "DB_URL value not found in <secrets_file>"
    );
}

#[test]
fn test_read_secrets_unicode_whitespace_trimmed() {
    let file_content = "DB_URL=\u{00A0}http://localhost:1234\u{00A0}\nAPI_KEY=\u{2003}k\u{2003}";

    let result = parse_secrets(file_content, "<secrets_file>");

    let Secret { db_url, api_key } = result.unwrap();
    assert_eq!(db_url, "http://localhost:1234");
    assert_eq!(api_key, "k");
}

#[test]
fn test_read_secrets_unicode_whitespace_value_is_empty() {
    let file_content = "DB_URL=\u{000B}\u{000C}\nAPI_KEY=k";

    let result = parse_secrets(file_content, "<secrets_file>");

    assert_eq!(result.unwrap_err(), "value is empty at <secrets_file>:1");
}

#[test]
fn test_read_secrets_unicode_whitespace_around_key() {
    let file_content = "DB_URL\u{00A0}=v\nAPI_KEY=k";

    let result = parse_secrets(file_content, "<secrets_file>");

    assert_eq!(result.unwrap().db_url, "v");
}

#[test]
fn test_check_val_empty_trims() {
    let result = check_val_empty("  x ", "<secrets_file>", 3);

    assert_eq!(result.unwrap(), "x");
}

#[test]
fn test_check_val_empty_rejects_blank() {
    let result = check_val_empty("  ", "<secrets_file>", 2);

    assert_eq!(result.unwrap_err(), "value is empty at <secrets_file>:2");
}
