use wt_backend::codes::{APIResult, Empty, ErrorCode};
use wt_backend::error::{Fault, WTError};
use wt_backend::mentions::{extract_mentions, mentioned_names};
use wt_backend::ranking::{page_keys, rank_keys, TimeFrame};
use wt_backend::validate::{
    derive_user_name, generate_token, is_page_name, is_token, judge_email, str_byte_len,
    validate_comment, validate_display_name, validate_email,
};

#[test]
fn token_shape() {
    assert!(is_token("abcdefghijklmnopqrstuvwxyzABCDEF"));
    assert!(is_token("0123456789012345678901234567890Z"));
    assert!(!is_token("abcdefghijklmnopqrstuvwxyzABCDE"));
    assert!(!is_token("abcdefghijklmnopqrstuvwxyzABCDEFG"));
    assert!(!is_token("abcdefghijklmnopqrstuvwxyzABCDE_"));
    assert!(!is_token("abcdefghijklmnopqrstuvwxyzABCD\u{e9}"));
    assert!(!is_token(""));
}

#[test]
fn page_name_bounds() {
    assert!(!is_page_name(""));
    assert!(is_page_name("a"));
    assert!(is_page_name(&"a".repeat(1024)));
    assert!(!is_page_name(&"a".repeat(1025)));
    assert!(!is_page_name(&"\u{e9}".repeat(513)));
    assert!(is_page_name(&"\u{e9}".repeat(512)));
}

#[test]
fn byte_length_counts_bytes() {
    assert_eq!(str_byte_len("h\u{e9}llo"), 6);
    assert_eq!(str_byte_len(""), 0);
}

#[test]
fn display_name_bounds() {
    assert_eq!(validate_display_name("ab"), Some(ErrorCode::NameTooShort));
    assert_eq!(validate_display_name(""), Some(ErrorCode::NameTooShort));
    assert_eq!(validate_display_name("abc"), None);
    assert_eq!(validate_display_name(&"n".repeat(64)), None);
    assert_eq!(validate_display_name(&"n".repeat(65)), Some(ErrorCode::NameTooLong));
}

#[test]
fn comment_bounds() {
    assert_eq!(validate_comment(""), Some(ErrorCode::CommentTooShort));
    assert_eq!(validate_comment("x"), None);
    assert_eq!(validate_comment(&"x".repeat(4096)), None);
    assert_eq!(validate_comment(&"x".repeat(4097)), Some(ErrorCode::CommentTooLong));
}

#[test]
fn email_shape() {
    assert_eq!(validate_email("alice@example.com"), None);
    assert_eq!(validate_email("a@b.c"), None);
    assert_eq!(validate_email("first.last+tag@mail-host.co.uk"), None);
    assert_eq!(validate_email("nope"), Some(ErrorCode::EmailInvalid));
    assert_eq!(validate_email("@example.com"), Some(ErrorCode::EmailInvalid));
    assert_eq!(validate_email("alice@"), Some(ErrorCode::EmailInvalid));
    assert_eq!(validate_email(""), Some(ErrorCode::EmailInvalid));
    assert_eq!(validate_email("al ice@example.com"), Some(ErrorCode::EmailInvalid));
}

#[test]
fn email_pattern_is_loose() {
    // the dot of the pattern stands for any character
    assert_eq!(validate_email("a@bcd"), None);
    assert_eq!(validate_email("a@b"), Some(ErrorCode::EmailInvalid));
}

#[test]
fn email_length_comes_first() {
    let local = "a".repeat(120);
    let long = format!("{}@example.com", local);
    assert_eq!(long.len(), 132);
    assert_eq!(validate_email(&long), Some(ErrorCode::EmailTooLong));
    let not_an_address = "x".repeat(129);
    assert_eq!(validate_email(&not_an_address), Some(ErrorCode::EmailTooLong));
    let at_limit = format!("{}@b.c", "a".repeat(124));
    assert_eq!(at_limit.len(), 128);
    assert_eq!(validate_email(&at_limit), None);
}

#[test]
fn email_judged_from_length_and_match() {
    assert_eq!(judge_email(129, Some(true)), Some(ErrorCode::EmailTooLong));
    assert_eq!(judge_email(128, Some(true)), None);
    assert_eq!(judge_email(10, Some(false)), Some(ErrorCode::EmailInvalid));
    assert_eq!(judge_email(10, None), Some(ErrorCode::EmailInvalid));
    assert_eq!(judge_email(0, Some(true)), None);
}

#[test]
fn user_name_from_display_name() {
    assert_eq!(derive_user_name("Alice"), "alice");
    assert_eq!(derive_user_name("Alice B Carol"), "alice_b_carol");
    assert_eq!(derive_user_name("  X  "), "__x__");
    assert_eq!(derive_user_name("\u{c9}mile Z"), "\u{c9}mile_z");
    assert_eq!(derive_user_name("already_lower"), "already_lower");
}

#[test]
fn generated_tokens_are_tokens() {
    for _ in 0..20 {
        let t = generate_token();
        assert_eq!(t.len(), 32);
        assert!(is_token(&t));
    }
    assert_ne!(generate_token(), generate_token());
}

#[test]
fn error_codes_on_the_wire() {
    assert_eq!(ErrorCode::NameDuplicated.code(), 1);
    assert_eq!(ErrorCode::EmailDuplicated.code(), 2);
    assert_eq!(ErrorCode::NameTooLong.code(), 3);
    assert_eq!(ErrorCode::EmailTooLong.code(), 4);
    assert_eq!(ErrorCode::EmailInvalid.code(), 5);
    assert_eq!(ErrorCode::CommentTooLong.code(), 6);
    assert_eq!(ErrorCode::TokenInvalid.code(), 7);
    assert_eq!(ErrorCode::NameTooShort.code(), 8);
    assert_eq!(ErrorCode::CommentTooShort.code(), 9);
}

#[test]
fn result_envelope() {
    let ok: APIResult<Empty> = APIResult::success();
    assert_eq!(ok.status_code(), 200);
    let err: APIResult<Empty> = APIResult::error(ErrorCode::EmailInvalid);
    assert_eq!(err.status_code(), 200);
    assert!(matches!(err, APIResult::Error(ErrorCode::EmailInvalid)));
    let no: APIResult<Empty> = APIResult::forbidden();
    assert_eq!(no.status_code(), 403);
    let with: APIResult<u8> = APIResult::success_return(7);
    assert!(matches!(with, APIResult::Success(7)));
    assert_eq!(WTError::InternalError(Fault::BadPage).status_code(), 500);
}

#[test]
fn time_frames_in_milliseconds() {
    assert_eq!(TimeFrame::HOUR.get_milliseconds(), 3_600_000);
    assert_eq!(TimeFrame::DAY.get_milliseconds(), 86_400_000);
    assert_eq!(TimeFrame::WEEK.get_milliseconds(), 604_800_000);
    assert_eq!(TimeFrame::MONTH.get_milliseconds(), 2_592_000_000);
    assert_eq!(TimeFrame::YEAR.get_milliseconds(), 31_536_000_000);
}

#[test]
fn mentions_found_in_text() {
    assert_eq!(extract_mentions("hello @bob and @carol!"), vec!["bob", "carol!"]);
    assert_eq!(extract_mentions("no mention here"), Vec::<String>::new());
    assert_eq!(extract_mentions("@"), Vec::<String>::new());
    assert_eq!(extract_mentions("@ bob"), Vec::<String>::new());
    assert_eq!(extract_mentions("@a@b"), vec!["a@b"]);
    assert_eq!(extract_mentions("mail me: x@y"), vec!["y"]);
    assert_eq!(extract_mentions("@zed\n@amy\t@zed"), vec!["zed", "amy"]);
}

#[test]
fn mentions_name_the_user_name() {
    assert_eq!(extract_mentions("@Alice and @BOB"), vec!["alice", "bob"]);
    assert_eq!(extract_mentions("@Bob @bob @BoB"), vec!["bob"]);
    assert_eq!(extract_mentions("@\u{c9}mile"), vec!["\u{c9}mile"]);
}

#[test]
fn mentions_capped_at_five_occurrences() {
    let names = extract_mentions("@u1 @u2 @u3 @u4 @u5 @u6 @u7");
    assert_eq!(names, vec!["u1", "u2", "u3", "u4", "u5"]);
}

#[test]
fn mentions_capped_before_duplicates_are_dropped() {
    assert_eq!(extract_mentions("@a @a @a @a @a @b"), vec!["a"]);
    assert_eq!(extract_mentions("@a @b @a @b @c @d"), vec!["a", "b", "c"]);
}

#[test]
fn mentioned_names_from_captures() {
    let groups = vec![
        Some("x".to_string()),
        None,
        Some("Y".to_string()),
        Some("X".to_string()),
        Some("z".to_string()),
        Some("late".to_string()),
    ];
    assert_eq!(mentioned_names(&groups), vec!["x", "y", "z"]);
    assert_eq!(mentioned_names(&Vec::new()), Vec::<String>::new());
}

#[test]
fn keys_ranked_by_visits_then_id() {
    let keys = vec![(3, 1), (10, 2), (3, 3), (0, 4), (10, 5), (7, 6)];
    assert_eq!(rank_keys(&keys), vec![(10, 2), (10, 5), (7, 6), (3, 1), (3, 3), (0, 4)]);
    assert_eq!(rank_keys(&Vec::new()), Vec::<(i64, i32)>::new());
}

#[test]
fn pages_of_fifty() {
    let keys: Vec<(i64, i32)> = (1..=120).map(|i| (0i64, i)).collect();
    assert_eq!(page_keys(&keys, 1), keys[0..50].to_vec());
    assert_eq!(page_keys(&keys, 2), keys[50..100].to_vec());
    assert_eq!(page_keys(&keys, 3), keys[100..120].to_vec());
    assert_eq!(page_keys(&keys, 4), Vec::<(i64, i32)>::new());
    assert_eq!(page_keys(&keys, 0), Vec::<(i64, i32)>::new());
    assert_eq!(page_keys(&keys, -3), Vec::<(i64, i32)>::new());
    assert_eq!(page_keys(&keys, i32::MAX), Vec::<(i64, i32)>::new());
}
