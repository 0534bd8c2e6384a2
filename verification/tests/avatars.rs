use wt_backend::avatar::{
    build_avatar_url, convert_comment_query_results_to_response, get_user_avatar_url,
};
use wt_backend::models::{Comment, User};
use wt_backend::store::SingleCommentQueryResult;

fn user(user_name: &str, display_name: &str, email: Option<&str>) -> User {
    User {
        id: 1,
        token: "AAAAAAAAAAAAAAAAAAAAAAAAAAAAAAA1".to_string(),
        email: email.map(|e| e.to_string()),
        user_name: user_name.to_string(),
        display_name: display_name.to_string(),
        disabled: false,
        last_checked_mentions_timestamp: 0,
    }
}

fn palette(n: usize) -> Vec<String> {
    (0..n).map(|k| format!("c0ff{:02x}", k)).collect()
}

#[test]
fn avatar_url_from_parts() {
    assert_eq!(
        build_avatar_url("Al%20Ice", "123456", &None),
        "https://ui-avatars.com/api/Al%20Ice/128/123456/ffffff"
    );
    assert_eq!(
        build_avatar_url("Al%20Ice", "123456", &Some("0abc".to_string())),
        "https://www.gravatar.com/avatar/0abc?d=https%3A%2F%2Fui-avatars.com%2Fapi%2FAl%2520Ice%2F128%2F123456%2Fffffff"
    );
    assert_eq!(build_avatar_url("", "", &None), "https://ui-avatars.com/api//128//ffffff");
}

#[test]
fn drawn_avatar_for_user_without_email() {
    // the hash of this user name is 1988685042348123509, which is 5 modulo 7
    let u = user("to be or not to be", "foo bar?", None);
    assert_eq!(
        get_user_avatar_url(&u, &palette(7)),
        "https://ui-avatars.com/api/foo%20bar%3F/128/c0ff05/ffffff"
    );
    assert_eq!(
        get_user_avatar_url(&u, &palette(1)),
        "https://ui-avatars.com/api/foo%20bar%3F/128/c0ff00/ffffff"
    );
    assert_eq!(
        get_user_avatar_url(&u, &palette(10)),
        "https://ui-avatars.com/api/foo%20bar%3F/128/c0ff09/ffffff"
    );
}

#[test]
fn registered_avatar_for_user_with_email() {
    let u = user("to be or not to be", "foo bar?", Some("hello"));
    assert_eq!(
        get_user_avatar_url(&u, &palette(7)),
        "https://www.gravatar.com/avatar/5d41402abc4b2a76b9719d911017c592?d=https%3A%2F%2Fui-avatars.com%2Fapi%2Ffoo%2520bar%253F%2F128%2Fc0ff05%2Fffffff"
    );
}

#[test]
fn display_name_is_encoded_byte_by_byte() {
    let u = user("x", "\u{e9}_A-z.9", None);
    let url = get_user_avatar_url(&u, &palette(1));
    assert_eq!(url, "https://ui-avatars.com/api/%C3%A9%5FA%2Dz%2E9/128/c0ff00/ffffff");
}

#[test]
fn comments_become_responses_in_order() {
    let row = |id: i64, text: &str| SingleCommentQueryResult {
        relative_path: format!("/p{}", id),
        comment: Comment {
            id,
            chapter_id: 1,
            user_id: 1,
            content: text.to_string(),
            deleted: false,
            create_timestamp: 10 * id,
            update_timestamp: 10 * id + 1,
        },
        user: user("to be or not to be", "Hamlet", None),
    };
    let out = convert_comment_query_results_to_response(
        vec![row(2, "second"), row(1, "first")],
        &palette(7),
    );
    assert_eq!(out.len(), 2);
    assert_eq!(out[0].id, 2);
    assert_eq!(out[0].body, "second");
    assert_eq!(out[0].relative_path, "/p2");
    assert_eq!(out[0].create_timestamp, 20);
    assert_eq!(out[0].update_timestamp, 21);
    assert_eq!(out[0].user.user_name, "to be or not to be");
    assert_eq!(out[0].user.display_name, "Hamlet");
    assert_eq!(out[0].user.avatar_url, "https://ui-avatars.com/api/Hamlet/128/c0ff05/ffffff");
    assert_eq!(out[1].id, 1);
    assert_eq!(out[1].body, "first");
    assert!(convert_comment_query_results_to_response(Vec::new(), &palette(1)).is_empty());
}
