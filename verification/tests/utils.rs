use spamwatch_api::errors::UserError;
use spamwatch_api::decimal::{join_ids, parse_token_id, parse_user_id};
use spamwatch_api::utils::get_auth_token;

#[test]
fn missing_header_is_unauthorized() {
    assert_eq!(get_auth_token(None), Err(UserError::Unauthorized));
}

#[test]
fn secret_is_the_second_word() {
    assert_eq!(get_auth_token(Some("Bearer abc")), Ok("abc".to_string()));
    assert_eq!(get_auth_token(Some("Token S3cr3t_~")), Ok("S3cr3t_~".to_string()));
    assert_eq!(get_auth_token(Some("x y")), Ok("y".to_string()));
}

#[test]
fn words_after_the_second_are_ignored() {
    assert_eq!(get_auth_token(Some("Bearer abc def")), Ok("abc".to_string()));
}

#[test]
fn surrounding_and_repeated_whitespace_is_skipped() {
    assert_eq!(get_auth_token(Some("  Bearer   abc  ")), Ok("abc".to_string()));
    assert_eq!(get_auth_token(Some("\tBearer\t\tabc\t")), Ok("abc".to_string()));
    assert_eq!(get_auth_token(Some("Bearer \t abc")), Ok("abc".to_string()));
}

#[test]
fn header_without_second_word_is_a_bad_request() {
    assert_eq!(get_auth_token(Some("")), Err(UserError::BadRequest));
    assert_eq!(get_auth_token(Some("   ")), Err(UserError::BadRequest));
    assert_eq!(get_auth_token(Some("Bearer")), Err(UserError::BadRequest));
    assert_eq!(get_auth_token(Some("Bearer   ")), Err(UserError::BadRequest));
    assert_eq!(get_auth_token(Some("  abc")), Err(UserError::BadRequest));
}

#[test]
fn header_that_is_no_header_text_is_a_bad_request() {
    assert_eq!(get_auth_token(Some("Bearer abc\n")), Err(UserError::BadRequest));
    assert_eq!(get_auth_token(Some("Bearer\rabc")), Err(UserError::BadRequest));
    assert_eq!(get_auth_token(Some("Bearer a\u{7f}c")), Err(UserError::BadRequest));
    assert_eq!(get_auth_token(Some("Bearer \u{0}")), Err(UserError::BadRequest));
    assert_eq!(get_auth_token(Some("Bearer sch\u{fc}ssel")), Err(UserError::BadRequest));
    assert_eq!(get_auth_token(Some("Bearer \u{1f511}")), Err(UserError::BadRequest));
}

#[test]
fn user_ids_are_read_in_decimal() {
    assert_eq!(parse_user_id("0"), Ok(0));
    assert_eq!(parse_user_id("42"), Ok(42));
    assert_eq!(parse_user_id("-42"), Ok(-42));
    assert_eq!(parse_user_id("+42"), Ok(42));
    assert_eq!(parse_user_id("007"), Ok(7));
    assert_eq!(parse_user_id("-0"), Ok(0));
    assert_eq!(parse_user_id("1001"), Ok(1001));
}

#[test]
fn user_ids_span_sixty_four_bits() {
    assert_eq!(parse_user_id("9223372036854775807"), Ok(i64::MAX));
    assert_eq!(parse_user_id("-9223372036854775808"), Ok(i64::MIN));
    assert_eq!(parse_user_id("9223372036854775808"), Err(UserError::BadRequest));
    assert_eq!(parse_user_id("-9223372036854775809"), Err(UserError::BadRequest));
    assert_eq!(parse_user_id("00000000000000000000000000000000001"), Ok(1));
    assert_eq!(
        parse_user_id("99999999999999999999999999999999999999999999"),
        Err(UserError::BadRequest)
    );
}

#[test]
fn what_is_no_integer_is_a_bad_request() {
    for text in ["", "-", "+", "abc", "12a", "a12", " 12", "12 ", "1 2", "--1", "+-1", "1.0", "0x10", "\u{661}\u{662}"] {
        assert_eq!(parse_user_id(text), Err(UserError::BadRequest));
        assert_eq!(parse_token_id(text), Err(UserError::BadRequest));
    }
}

#[test]
fn parsing_agrees_with_the_standard_library() {
    for text in ["5", "-5", "+5", "", "-", "0005", "2147483648", "-2147483649", "x", "9223372036854775807"] {
        assert_eq!(parse_user_id(text).ok(), text.parse::<i64>().ok());
        assert_eq!(parse_token_id(text).ok(), text.parse::<i32>().ok());
    }
}

#[test]
fn token_ids_span_thirty_two_bits() {
    assert_eq!(parse_token_id("7"), Ok(7));
    assert_eq!(parse_token_id("2147483647"), Ok(i32::MAX));
    assert_eq!(parse_token_id("-2147483648"), Ok(i32::MIN));
    assert_eq!(parse_token_id("2147483648"), Err(UserError::BadRequest));
    assert_eq!(parse_token_id("-2147483649"), Err(UserError::BadRequest));
}

#[test]
fn ids_are_joined_one_per_line() {
    assert_eq!(join_ids(&vec![]), "");
    assert_eq!(join_ids(&vec![1001]), "1001");
    assert_eq!(join_ids(&vec![1, -2, 30]), "1\n-2\n30");
    assert_eq!(join_ids(&vec![0, 0]), "0\n0");
    assert_eq!(
        join_ids(&vec![i64::MIN, i64::MAX]),
        "-9223372036854775808\n9223372036854775807"
    );
}

#[test]
fn joined_ids_read_back() {
    let ids = vec![0, 7, -7, 10, 100, 1234567890123, i64::MIN, i64::MAX];
    let text = join_ids(&ids);
    let back: Vec<i64> = text.split('\n').map(|line| parse_user_id(line).unwrap()).collect();
    assert_eq!(back, ids);
}
