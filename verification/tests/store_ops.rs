use wt_backend::api::{
    chapter_all_handler, chapter_all_raw_handler, chapter_recent_handler, count_handler,
    delete_handler, get_chapter_handler, get_recent_comments_handler,
    get_recent_mentioned_comments_handler, get_votes_handler, init_handler, register_handler,
    register_with_token, send_handler, update_profile_handler, vote_handler, VoteEvent,
};
use wt_backend::codes::{APIResult, ErrorCode};
use wt_backend::error::{Fault, WTError};
use wt_backend::ranking::TimeFrame;
use wt_backend::store::{get_chapter, get_user, get_user_by_user_name, get_user_id, Store};
use wt_backend::validate::is_token;

const T1: &str = "AAAAAAAAAAAAAAAAAAAAAAAAAAAAAAA1";
const T2: &str = "BBBBBBBBBBBBBBBBBBBBBBBBBBBBBBB2";
const T3: &str = "CCCCCCCCCCCCCCCCCCCCCCCCCCCCCCC3";

fn signed_up(store: &mut Store, token: &str, name: &str, email: Option<&str>, now: i64) {
    let r = register_with_token(
        store,
        token.to_string(),
        name.to_string(),
        email.map(|e| e.to_string()),
        now,
    );
    assert!(matches!(r, Ok(APIResult::Success(_))));
}

fn board(store: &Store, page: i32) -> Vec<(String, i64)> {
    chapter_all_handler(store, page)
        .unwrap()
        .into_iter()
        .map(|c| (c.relative_path, c.visit_count))
        .collect()
}

#[test]
fn visits_are_counted() {
    let mut store = Store::new();
    for n in 1..=7i64 {
        let r = count_handler(&mut store, "/ch1", 1000 + n);
        assert!(matches!(r, Ok(APIResult::Success(_))));
        assert_eq!(board(&store, 1), vec![("/ch1".to_string(), n)]);
    }
    assert!(matches!(count_handler(&mut store, "/ch2", 2000), Ok(APIResult::Success(_))));
    assert_eq!(
        board(&store, 1),
        vec![("/ch1".to_string(), 7), ("/ch2".to_string(), 1)]
    );
    let recent = chapter_recent_handler(&store, 1, TimeFrame::YEAR, 3000).unwrap();
    assert_eq!(recent.len(), 2);
    assert_eq!(recent[0].visit_count, 7);
    assert_eq!(recent[1].visit_count, 1);
}

#[test]
fn invalid_path_is_not_counted() {
    let mut store = Store::new();
    assert!(matches!(count_handler(&mut store, "", 1), Ok(APIResult::Forbidden)));
    let long = "p".repeat(1025);
    assert!(matches!(count_handler(&mut store, &long, 1), Ok(APIResult::Forbidden)));
    assert!(chapter_all_raw_handler(&store).is_empty());
    let longest = "p".repeat(1024);
    assert!(matches!(count_handler(&mut store, &longest, 1), Ok(APIResult::Success(_))));
    assert_eq!(chapter_all_raw_handler(&store).len(), 1);
}

#[test]
fn chapter_is_created_once() {
    let mut store = Store::new();
    let a = get_chapter(&mut store, "/a").unwrap();
    assert_eq!((a.id, a.relative_path.as_str(), a.visit_count), (1, "/a", 0));
    let b = get_chapter(&mut store, "/b").unwrap();
    assert_eq!(b.id, 2);
    let again = get_chapter(&mut store, "/a").unwrap();
    assert_eq!(again.id, 1);
    store.count("/a", 5).unwrap();
    assert_eq!(get_chapter(&mut store, "/a").unwrap().visit_count, 1);
    assert_eq!(chapter_all_raw_handler(&store).len(), 2);
}

#[test]
fn second_page_holds_places_51_to_100() {
    let mut store = Store::new();
    // chapter k gets k % 7 visits beyond its first, so that many counters tie
    for k in 1..=120 {
        let path = format!("/c{}", k);
        for _ in 0..(1 + k % 7) {
            store.count(&path, 10).unwrap();
        }
    }
    let mut expected: Vec<(i64, i32)> = (1..=120).map(|k| ((1 + k % 7) as i64, k)).collect();
    expected.sort_by(|a, b| b.0.cmp(&a.0).then(a.1.cmp(&b.1)));
    let named: Vec<(String, i64)> =
        expected.iter().map(|(n, k)| (format!("/c{}", k), *n)).collect();
    assert_eq!(board(&store, 1), named[0..50].to_vec());
    assert_eq!(board(&store, 2), named[50..100].to_vec());
    assert_eq!(board(&store, 3), named[100..120].to_vec());
    assert!(board(&store, 4).is_empty());
    assert!(matches!(
        chapter_all_handler(&store, 0),
        Err(WTError::InternalError(Fault::BadPage))
    ));
}

#[test]
fn recent_board_counts_the_window_only() {
    let mut store = Store::new();
    let hour = TimeFrame::HOUR.get_milliseconds();
    let now = 10 * hour;
    store.count("/old", now - hour).unwrap(); // exactly one hour ago: outside
    store.count("/old", now - hour - 1).unwrap();
    store.count("/new", now - hour + 1).unwrap();
    store.count("/new", now).unwrap();
    store.count("/both", 0).unwrap();
    store.count("/both", now - 5).unwrap();
    let rows: Vec<(String, i64)> = chapter_recent_handler(&store, 1, TimeFrame::HOUR, now)
        .unwrap()
        .into_iter()
        .map(|c| (c.relative_path, c.visit_count))
        .collect();
    assert_eq!(rows, vec![("/new".to_string(), 2), ("/both".to_string(), 1)]);
    let day: Vec<i64> = chapter_recent_handler(&store, 1, TimeFrame::DAY, now)
        .unwrap()
        .into_iter()
        .map(|c| c.visit_count)
        .collect();
    assert_eq!(day, vec![2, 2, 2]);
    assert!(chapter_recent_handler(&store, 2, TimeFrame::DAY, now).unwrap().is_empty());
    assert!(chapter_recent_handler(&store, -1, TimeFrame::DAY, now).is_err());
}

#[test]
fn register_hands_back_token_and_user_name() {
    let mut store = Store::new();
    let r = register_handler(&mut store, "Alice Liddell".to_string(), None, 42);
    let resp = match r {
        Ok(APIResult::Success(resp)) => resp,
        other => panic!("unexpected {:?}", other),
    };
    assert!(is_token(&resp.token));
    assert_eq!(resp.user_name, "alice_liddell");
    let user = get_user(&store, &resp.token).unwrap();
    assert_eq!(user.id, 1);
    assert_eq!(user.display_name, "Alice Liddell");
    assert_eq!(user.user_name, "alice_liddell");
    assert_eq!(user.email, None);
    assert!(!user.disabled);
    assert_eq!(user.last_checked_mentions_timestamp, 42);
    assert_eq!(get_user_id(&store, &resp.token), Some(1));
    assert_eq!(get_user_by_user_name(&store, "alice_liddell").unwrap().id, 1);
    assert!(get_user_by_user_name(&store, "Alice Liddell").is_none());
}

#[test]
fn register_checks_the_profile() {
    let mut store = Store::new();
    let r = register_handler(&mut store, "ab".to_string(), None, 1);
    assert!(matches!(r, Ok(APIResult::Error(ErrorCode::NameTooShort))));
    let r = register_handler(&mut store, "n".repeat(65), None, 1);
    assert!(matches!(r, Ok(APIResult::Error(ErrorCode::NameTooLong))));
    let r = register_handler(&mut store, "Alice".to_string(), Some("nope".to_string()), 1);
    assert!(matches!(r, Ok(APIResult::Error(ErrorCode::EmailInvalid))));
    let r = register_handler(&mut store, "Alice".to_string(), Some("x".repeat(129)), 1);
    assert!(matches!(r, Ok(APIResult::Error(ErrorCode::EmailTooLong))));
    // the name is judged before the address
    let r = register_handler(&mut store, "ab".to_string(), Some("nope".to_string()), 1);
    assert!(matches!(r, Ok(APIResult::Error(ErrorCode::NameTooShort))));
    assert!(get_user_by_user_name(&store, "alice").is_none());
}

#[test]
fn duplicate_name_is_refused_whatever_the_email() {
    let mut store = Store::new();
    signed_up(&mut store, T1, "Alice", Some("alice@example.com"), 1);
    for email in [None, Some("alice@example.com"), Some("other@example.com")] {
        let r = register_with_token(
            &mut store,
            T2.to_string(),
            "Alice".to_string(),
            email.map(|e| e.to_string()),
            2,
        );
        assert!(matches!(r, Ok(APIResult::Error(ErrorCode::NameDuplicated))));
    }
    // another spelling with the same user name collides too
    let r = register_with_token(&mut store, T2.to_string(), "ALICE".to_string(), None, 2);
    assert!(matches!(r, Ok(APIResult::Error(ErrorCode::NameDuplicated))));
    let r = register_with_token(
        &mut store,
        T2.to_string(),
        "Bobby".to_string(),
        Some("alice@example.com".to_string()),
        2,
    );
    assert!(matches!(r, Ok(APIResult::Error(ErrorCode::EmailDuplicated))));
    assert!(get_user(&store, T2).is_none());
}

#[test]
fn token_collision_is_an_internal_error() {
    let mut store = Store::new();
    signed_up(&mut store, T1, "Alice", None, 1);
    let r = register_with_token(&mut store, T1.to_string(), "Bobby".to_string(), None, 2);
    assert!(matches!(r, Err(WTError::InternalError(Fault::TokenCollision))));
    assert!(get_user_by_user_name(&store, "bobby").is_none());
}

#[test]
fn own_profile_can_be_sent_again() {
    let mut store = Store::new();
    signed_up(&mut store, T1, "Alice", Some("alice@example.com"), 1);
    let r = update_profile_handler(
        &mut store,
        T1.to_string(),
        "Alice".to_string(),
        Some("alice@example.com".to_string()),
    );
    assert!(matches!(r, Ok(APIResult::Success(_))));
    let user = get_user(&store, T1).unwrap();
    assert_eq!(user.display_name, "Alice");
    assert_eq!(user.email.as_deref(), Some("alice@example.com"));
}

#[test]
fn profile_update_rules() {
    let mut store = Store::new();
    signed_up(&mut store, T1, "Alice", Some("alice@example.com"), 1);
    signed_up(&mut store, T2, "Bobby", Some("bob@example.com"), 1);
    let r = update_profile_handler(&mut store, T2.to_string(), "Alice".to_string(), None);
    assert!(matches!(r, Ok(APIResult::Error(ErrorCode::NameDuplicated))));
    let r = update_profile_handler(
        &mut store,
        T2.to_string(),
        "Bobby".to_string(),
        Some("alice@example.com".to_string()),
    );
    assert!(matches!(r, Ok(APIResult::Error(ErrorCode::EmailDuplicated))));
    let r = update_profile_handler(&mut store, T3.to_string(), "Carol".to_string(), None);
    assert!(matches!(r, Ok(APIResult::Forbidden)));
    let r = update_profile_handler(&mut store, "short".to_string(), "Carol".to_string(), None);
    assert!(matches!(r, Ok(APIResult::Forbidden)));
    let r = update_profile_handler(&mut store, T2.to_string(), "xy".to_string(), None);
    assert!(matches!(r, Ok(APIResult::Error(ErrorCode::NameTooShort))));
    let r = update_profile_handler(
        &mut store,
        T2.to_string(),
        "Bobby".to_string(),
        Some("bad".to_string()),
    );
    assert!(matches!(r, Ok(APIResult::Error(ErrorCode::EmailInvalid))));
    let bob = get_user(&store, T2).unwrap();
    assert_eq!(bob.display_name, "Bobby");
    assert_eq!(bob.email.as_deref(), Some("bob@example.com"));

    let r = update_profile_handler(&mut store, T2.to_string(), "Robert".to_string(), None);
    assert!(matches!(r, Ok(APIResult::Success(_))));
    let bob = get_user(&store, T2).unwrap();
    assert_eq!(bob.display_name, "Robert");
    assert_eq!(bob.user_name, "bobby");
    assert_eq!(bob.email, None);
    // the name that was given up is free again
    signed_up(&mut store, T3, "Bobby2", None, 3);
}

#[test]
fn comment_length_limits() {
    let mut store = Store::new();
    signed_up(&mut store, T1, "Alice", None, 1);
    let send = |store: &mut Store, content: String| {
        send_handler(store, T1.to_string(), "/ch1".to_string(), content, 10)
    };
    assert!(matches!(send(&mut store, "x".repeat(4096)), Ok(APIResult::Success(_))));
    assert!(matches!(
        send(&mut store, "x".repeat(4097)),
        Ok(APIResult::Error(ErrorCode::CommentTooLong))
    ));
    assert!(matches!(
        send(&mut store, String::new()),
        Ok(APIResult::Error(ErrorCode::CommentTooShort))
    ));
    assert!(matches!(send(&mut store, "x".to_string()), Ok(APIResult::Success(_))));
    let rows = match get_chapter_handler(&store, "/ch1".to_string()) {
        Ok(APIResult::Success(rows)) => rows,
        other => panic!("unexpected {:?}", other),
    };
    assert_eq!(rows.len(), 2);
    assert_eq!(rows[0].comment.content, "x");
    assert_eq!(rows[1].comment.content.len(), 4096);
    // the length is judged before token and path
    let r = send_handler(&mut store, "bad".to_string(), String::new(), String::new(), 10);
    assert!(matches!(r, Ok(APIResult::Error(ErrorCode::CommentTooShort))));
}

#[test]
fn comment_needs_a_known_token_and_a_path() {
    let mut store = Store::new();
    signed_up(&mut store, T1, "Alice", None, 1);
    let r = send_handler(&mut store, T2.to_string(), "/ch1".to_string(), "hi".to_string(), 10);
    assert!(matches!(r, Ok(APIResult::Forbidden)));
    let r = send_handler(&mut store, "tok".to_string(), "/ch1".to_string(), "hi".to_string(), 10);
    assert!(matches!(r, Ok(APIResult::Forbidden)));
    let r = send_handler(&mut store, T1.to_string(), String::new(), "hi".to_string(), 10);
    assert!(matches!(r, Ok(APIResult::Forbidden)));
    let r = send_handler(&mut store, T1.to_string(), "p".repeat(1025), "hi".to_string(), 10);
    assert!(matches!(r, Ok(APIResult::Forbidden)));
    assert!(get_recent_comments_handler(&store).unwrap().is_empty());
    assert!(chapter_all_raw_handler(&store).is_empty());
    assert!(matches!(
        get_chapter_handler(&store, String::new()),
        Ok(APIResult::Forbidden)
    ));
}

#[test]
fn comments_newest_first_with_author_and_path() {
    let mut store = Store::new();
    signed_up(&mut store, T1, "Alice", None, 1);
    signed_up(&mut store, T2, "Bobby", None, 1);
    for (n, (token, path)) in [(T1, "/a"), (T2, "/b"), (T2, "/a"), (T1, "/a")].iter().enumerate() {
        let r = send_handler(
            &mut store,
            token.to_string(),
            path.to_string(),
            format!("comment {}", n + 1),
            100 + n as i64,
        );
        assert!(matches!(r, Ok(APIResult::Success(_))));
    }
    let rows = store.get_chapter_comments("/a".to_string()).unwrap();
    let seen: Vec<(i64, &str, &str, i64)> = rows
        .iter()
        .map(|r| {
            (r.comment.id, r.user.display_name.as_str(), r.relative_path.as_str(), r.comment.create_timestamp)
        })
        .collect();
    assert_eq!(
        seen,
        vec![(4, "Alice", "/a", 103), (3, "Bobby", "/a", 102), (1, "Alice", "/a", 100)]
    );
    assert_eq!(rows[0].comment.update_timestamp, 103);
    assert!(!rows[0].comment.deleted);
    let all = get_recent_comments_handler(&store).unwrap();
    assert_eq!(all.iter().map(|r| r.comment.id).collect::<Vec<_>>(), vec![4, 3, 2, 1]);
    assert_eq!(all[2].relative_path, "/b");
    assert!(store.get_chapter_comments("/none".to_string()).unwrap().is_empty());
    // a comment does not count as a visit
    assert_eq!(board(&store, 1), vec![("/a".to_string(), 0), ("/b".to_string(), 0)]);
}

#[test]
fn recent_comments_are_capped_at_fifty() {
    let mut store = Store::new();
    signed_up(&mut store, T1, "Alice", None, 1);
    for n in 1..=60 {
        store
            .send(T1.to_string(), "/a".to_string(), format!("c{}", n), n, Vec::new())
            .unwrap();
    }
    let recent = get_recent_comments_handler(&store).unwrap();
    assert_eq!(recent.len(), 50);
    assert_eq!(recent[0].comment.id, 60);
    assert_eq!(recent[49].comment.id, 11);
    assert_eq!(store.get_chapter_comments("/a".to_string()).unwrap().len(), 60);
}

#[test]
fn at_most_five_mentions_per_comment() {
    let mut store = Store::new();
    let tokens: Vec<String> = (1..=8).map(|k| format!("{:0>32}", k)).collect();
    for (k, token) in tokens.iter().enumerate() {
        signed_up(&mut store, token, &format!("user{}", k + 1), None, 1);
    }
    let text = "@user2 @user3 @user4 @user5 @user6 @user7 @user8";
    let r = send_handler(&mut store, tokens[0].clone(), "/a".to_string(), text.to_string(), 50);
    assert!(matches!(r, Ok(APIResult::Success(_))));
    let mentioned: Vec<bool> = tokens
        .iter()
        .map(|t| init_handler(&mut store, t, 60).unwrap().mentions == 1)
        .collect();
    assert_eq!(mentioned, vec![false, true, true, true, true, true, false, false]);
}

#[test]
fn unknown_names_are_skipped() {
    let mut store = Store::new();
    signed_up(&mut store, T1, "Alice", None, 1);
    signed_up(&mut store, T2, "Bobby", None, 1);
    let r = send_handler(
        &mut store,
        T1.to_string(),
        "/a".to_string(),
        "@nobody @bobby @Bobby @bobby".to_string(),
        5,
    );
    assert!(matches!(r, Ok(APIResult::Success(_))));
    assert_eq!(init_handler(&mut store, T2, 6).unwrap().mentions, 1);
    assert_eq!(init_handler(&mut store, T1, 6).unwrap().mentions, 0);
}

#[test]
fn delete_works_once_and_only_for_the_author() {
    let mut store = Store::new();
    signed_up(&mut store, T1, "Alice", None, 1);
    signed_up(&mut store, T2, "Bobby", None, 1);
    store.send(T1.to_string(), "/a".to_string(), "mine".to_string(), 5, Vec::new()).unwrap();
    store.send(T2.to_string(), "/a".to_string(), "his".to_string(), 6, Vec::new()).unwrap();
    assert!(matches!(delete_handler(&mut store, 1, T2.to_string()), Ok(APIResult::Forbidden)));
    assert!(matches!(delete_handler(&mut store, 1, T3.to_string()), Ok(APIResult::Forbidden)));
    assert!(matches!(delete_handler(&mut store, 1, "x".to_string()), Ok(APIResult::Forbidden)));
    assert!(matches!(delete_handler(&mut store, 0, T1.to_string()), Ok(APIResult::Forbidden)));
    assert!(matches!(delete_handler(&mut store, 3, T1.to_string()), Ok(APIResult::Forbidden)));
    assert!(matches!(delete_handler(&mut store, -1, T1.to_string()), Ok(APIResult::Forbidden)));
    assert_eq!(store.get_chapter_comments("/a".to_string()).unwrap().len(), 2);

    assert!(matches!(delete_handler(&mut store, 1, T1.to_string()), Ok(APIResult::Success(_))));
    let left = store.get_chapter_comments("/a".to_string()).unwrap();
    assert_eq!(left.iter().map(|r| r.comment.id).collect::<Vec<_>>(), vec![2]);
    assert_eq!(get_recent_comments_handler(&store).unwrap().len(), 1);
    assert!(matches!(delete_handler(&mut store, 1, T1.to_string()), Ok(APIResult::Forbidden)));
    assert_eq!(store.delete(1, T1.to_string()).unwrap(), false);
    assert_eq!(store.delete(2, T2.to_string()).unwrap(), true);
    assert!(store.get_chapter_comments("/a".to_string()).unwrap().is_empty());
}

#[test]
fn vote_then_withdraw_leaves_no_row() {
    let mut store = Store::new();
    let event = VoteEvent::wtcup_2022();
    let now = event.vote_start_timestamp + 1;
    signed_up(&mut store, T1, "Alice", None, 1);
    let votes = |store: &Store| -> Vec<(i16, i16)> {
        match get_votes_handler(store, event, T1.to_string(), now) {
            Ok(APIResult::Success(rows)) => {
                rows.iter().map(|v| (v.chapter_vote_id, v.rating)).collect()
            }
            other => panic!("unexpected {:?}", other),
        }
    };
    assert!(matches!(
        vote_handler(&mut store, event, T1.to_string(), 71, 3, now),
        Ok(APIResult::Success(_))
    ));
    assert!(matches!(
        vote_handler(&mut store, event, T1.to_string(), 80, 5, now),
        Ok(APIResult::Success(_))
    ));
    assert_eq!(votes(&store), vec![(71, 3), (80, 5)]);
    assert!(matches!(
        vote_handler(&mut store, event, T1.to_string(), 71, 4, now),
        Ok(APIResult::Success(_))
    ));
    assert_eq!(votes(&store), vec![(71, 4), (80, 5)]);
    assert!(matches!(
        vote_handler(&mut store, event, T1.to_string(), 71, 0, now),
        Ok(APIResult::Success(_))
    ));
    assert_eq!(votes(&store), vec![(80, 5)]);
    // nothing left to remove
    assert!(matches!(
        vote_handler(&mut store, event, T1.to_string(), 71, 0, now),
        Ok(APIResult::Forbidden)
    ));
    assert_eq!(votes(&store), vec![(80, 5)]);
}

#[test]
fn votes_outside_the_event_change_nothing() {
    let mut store = Store::new();
    let event = VoteEvent::wtcup_2022();
    assert_eq!(event.min_chapter_vote_id, 70);
    assert_eq!(event.max_chapter_vote_id, 87);
    assert_eq!(event.vote_start_timestamp, 1672498800000);
    assert_eq!(event.vote_end_timestamp, 1674918000000);
    signed_up(&mut store, T1, "Alice", None, 1);
    let inside = event.vote_start_timestamp;
    let refused = [
        (T1, 75, 3, event.vote_start_timestamp - 1),
        (T1, 75, 3, event.vote_end_timestamp + 1),
        (T1, 69, 3, inside),
        (T1, 88, 3, inside),
        (T1, 75, -1, inside),
        (T1, 75, 6, inside),
        (T2, 75, 3, inside),
        ("bad", 75, 3, inside),
    ];
    for (token, id, rating, now) in refused {
        let r = vote_handler(&mut store, event, token.to_string(), id, rating, now);
        assert!(matches!(r, Ok(APIResult::Forbidden)));
        assert!(store.get_votes(T1.to_string()).unwrap().is_empty());
    }
    for (id, rating, now) in [(70, 1, inside), (87, 5, event.vote_end_timestamp)] {
        let r = vote_handler(&mut store, event, T1.to_string(), id, rating, now);
        assert!(matches!(r, Ok(APIResult::Success(_))));
    }
    assert_eq!(store.get_votes(T1.to_string()).unwrap().len(), 2);
    // withdrawing is refused too once the event is over
    let r = vote_handler(&mut store, event, T1.to_string(), 70, 0, event.vote_end_timestamp + 1);
    assert!(matches!(r, Ok(APIResult::Forbidden)));
    assert_eq!(store.get_votes(T1.to_string()).unwrap().len(), 2);
}

#[test]
fn ratings_outside_zero_to_five_are_not_stored() {
    let mut store = Store::new();
    signed_up(&mut store, T1, "Alice", None, 1);
    for rating in [9, 6, -1, i16::MAX, i16::MIN] {
        assert_eq!(store.vote(T1.to_string(), 70, rating).unwrap(), false);
        assert!(store.get_votes(T1.to_string()).unwrap().is_empty());
    }
    assert_eq!(store.vote(T1.to_string(), 70, 5).unwrap(), true);
    // a rating out of range does not touch the row that is there
    assert_eq!(store.vote(T1.to_string(), 70, 9).unwrap(), false);
    let rows = store.get_votes(T1.to_string()).unwrap();
    assert_eq!(rows.len(), 1);
    assert_eq!((rows[0].chapter_vote_id, rows[0].rating), (70, 5));
    assert_eq!(store.vote(T1.to_string(), 70, 1).unwrap(), true);
    assert_eq!(store.get_votes(T1.to_string()).unwrap()[0].rating, 1);
}

#[test]
fn first_registration_succeeds() {
    for _ in 0..50 {
        let mut store = Store::new();
        let r = register_handler(&mut store, "Alice".to_string(), None, 7);
        let resp = match r {
            Ok(APIResult::Success(resp)) => resp,
            other => panic!("unexpected {:?}", other),
        };
        assert_eq!(resp.token.len(), 32);
        assert!(resp.token.chars().all(|c| c.is_ascii_alphanumeric()));
        assert_eq!(resp.user_name, "alice");
        let tables = store.tables();
        assert_eq!(tables.users.len(), 1);
        let user = &tables.users[0];
        assert_eq!(user.id, 1);
        assert_eq!(user.display_name, "Alice");
        assert_eq!(user.user_name, "alice");
        assert_eq!(user.email, None);
        assert_eq!(user.token, resp.token);
    }
}

#[test]
fn other_comments_stay_after_a_delete() {
    let mut store = Store::new();
    signed_up(&mut store, T1, "Alice", None, 1);
    signed_up(&mut store, T2, "Bobby", None, 1);
    for (n, token) in [T1, T2, T1, T2].iter().enumerate() {
        store
            .send(token.to_string(), "/a".to_string(), format!("c{}", n + 1), 5, Vec::new())
            .unwrap();
    }
    store.send(T1.to_string(), "/b".to_string(), "c5".to_string(), 5, Vec::new()).unwrap();
    assert_eq!(store.delete(3, T1.to_string()).unwrap(), true);
    let on_a = store.get_chapter_comments("/a".to_string()).unwrap();
    assert_eq!(on_a.iter().map(|r| r.comment.id).collect::<Vec<_>>(), vec![4, 2, 1]);
    assert_eq!(
        on_a.iter().map(|r| r.comment.content.as_str()).collect::<Vec<_>>(),
        vec!["c4", "c2", "c1"]
    );
    let on_b = store.get_chapter_comments("/b".to_string()).unwrap();
    assert_eq!(on_b.iter().map(|r| r.comment.id).collect::<Vec<_>>(), vec![5]);
}

#[test]
fn votes_are_shown_until_the_event_ends() {
    let mut store = Store::new();
    let event = VoteEvent::wtcup_2022();
    signed_up(&mut store, T1, "Alice", None, 1);
    signed_up(&mut store, T2, "Bobby", None, 1);
    store.vote(T1.to_string(), 70, 2).unwrap();
    store.vote(T2.to_string(), 70, 4).unwrap();
    // before the event starts the votes can be read already
    match get_votes_handler(&store, event, T2.to_string(), 0) {
        Ok(APIResult::Success(rows)) => {
            assert_eq!(rows.len(), 1);
            assert_eq!((rows[0].chapter_vote_id, rating_of(&rows[0])), (70, 4));
        }
        other => panic!("unexpected {:?}", other),
    }
    assert!(matches!(
        get_votes_handler(&store, event, T1.to_string(), event.vote_end_timestamp + 1),
        Ok(APIResult::Forbidden)
    ));
    assert!(matches!(
        get_votes_handler(&store, event, "bad".to_string(), 0),
        Ok(APIResult::Forbidden)
    ));
    match get_votes_handler(&store, event, T3.to_string(), 0) {
        Ok(APIResult::Success(rows)) => assert!(rows.is_empty()),
        other => panic!("unexpected {:?}", other),
    }
}

fn rating_of(v: &wt_backend::store::GetVotesSingleResponse) -> i16 {
    v.rating
}

#[test]
fn mention_end_to_end() {
    let mut store = Store::new();
    signed_up(&mut store, T1, "Alice", None, 100);
    signed_up(&mut store, T2, "Bobby", None, 100);
    let r = send_handler(
        &mut store,
        T2.to_string(),
        "/ch1".to_string(),
        "hello @Alice".to_string(),
        200,
    );
    assert!(matches!(r, Ok(APIResult::Success(_))));
    let first = init_handler(&mut store, T1, 300).unwrap();
    assert_eq!(first.user_name, "alice");
    assert_eq!(first.display_name, "Alice");
    assert_eq!(first.email, None);
    assert_eq!(first.mentions, 1);
    let rows = match get_recent_mentioned_comments_handler(&mut store, T1.to_string(), 400) {
        Ok(APIResult::Success(rows)) => rows,
        other => panic!("unexpected {:?}", other),
    };
    assert_eq!(rows.len(), 1);
    assert_eq!(rows[0].comment.content, "hello @Alice");
    assert_eq!(rows[0].comment.id, 1);
    assert_eq!(rows[0].relative_path, "/ch1");
    assert_eq!(rows[0].user.user_name, "bobby");
    assert_eq!(get_user(&store, T1).unwrap().last_checked_mentions_timestamp, 400);
    assert_eq!(init_handler(&mut store, T1, 500).unwrap().mentions, 0);
}

#[test]
fn session_start_counts_unseen_mentions() {
    let mut store = Store::new();
    signed_up(&mut store, T1, "Alice", None, 100);
    signed_up(&mut store, T2, "Bobby", None, 100);
    let say = |store: &mut Store, at: i64| {
        store
            .send(T2.to_string(), "/a".to_string(), "@alice".to_string(), at, vec!["alice".to_string()])
            .unwrap()
    };
    assert!(say(&mut store, 150));
    assert!(say(&mut store, 160));
    assert!(say(&mut store, 170));
    assert_eq!(store.delete(2, T2.to_string()).unwrap(), true);
    // two live mentions since registration; the look moves the mark to 165
    assert_eq!(init_handler(&mut store, T1, 165).unwrap().mentions, 2);
    // only the one at 170 is at or after the mark
    assert_eq!(init_handler(&mut store, T1, 170).unwrap().mentions, 1);
    // a mention made at the very time of the mark still counts
    assert_eq!(init_handler(&mut store, T1, 180).unwrap().mentions, 1);
    assert_eq!(init_handler(&mut store, T1, 190).unwrap().mentions, 0);
    assert!(init_handler(&mut store, T3, 1).is_none());
    assert!(init_handler(&mut store, "bad", 1).is_none());
    // the mentions stay in the list whether seen or not, without the deleted one
    let rows = store.get_recent_mentioned(T1.to_string(), 200).unwrap();
    assert_eq!(rows.iter().map(|r| r.comment.id).collect::<Vec<_>>(), vec![3, 1]);
    assert!(matches!(
        get_recent_mentioned_comments_handler(&mut store, "bad".to_string(), 1),
        Ok(APIResult::Forbidden)
    ));
    assert!(store.get_recent_mentioned(T3.to_string(), 1).unwrap().is_empty());
}
