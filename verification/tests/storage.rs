use wt_backend::models::{Chapter, Comment, Mention, User, Visit, WTCup2020Vote};
use wt_backend::store::{get_chapter, get_user, get_user_id, Store};
use wt_backend::tables::Tables;

const T1: &str = "AAAAAAAAAAAAAAAAAAAAAAAAAAAAAAA1";
const T2: &str = "BBBBBBBBBBBBBBBBBBBBBBBBBBBBBBB2";

fn user(id: i64, token: &str, name: &str, email: Option<&str>) -> User {
    User {
        id,
        token: token.to_string(),
        email: email.map(|e| e.to_string()),
        user_name: name.to_lowercase(),
        display_name: name.to_string(),
        disabled: false,
        last_checked_mentions_timestamp: 0,
    }
}

fn comment(id: i64, user_id: i64) -> Comment {
    Comment {
        id,
        chapter_id: 1,
        user_id,
        content: format!("comment {}", id),
        deleted: false,
        create_timestamp: 10,
        update_timestamp: 10,
    }
}

/// Two chapters, three visits, two users, two comments, one mention, two votes.
fn sound() -> Tables {
    Tables {
        chapters: vec![
            Chapter { id: 1, relative_path: "/a".to_string(), visit_count: 2 },
            Chapter { id: 2, relative_path: "/b".to_string(), visit_count: 1 },
        ],
        visits: vec![
            Visit { id: 1, chapter_id: 1, timestamp: 5 },
            Visit { id: 2, chapter_id: 2, timestamp: 6 },
            Visit { id: 3, chapter_id: 1, timestamp: 7 },
        ],
        users: vec![user(1, T1, "Alice", Some("a@x.y")), user(2, T2, "Bobby", None)],
        comments: vec![comment(1, 1), comment(2, 2)],
        mentions: vec![Mention { id: 1, from_comment_id: 2, mentioned_user_id: 1, timestamp: 10 }],
        votes: vec![
            WTCup2020Vote { id: 4, user_id: 1, chapter_vote_id: 70, rating: 3 },
            WTCup2020Vote { id: 9, user_id: 2, chapter_vote_id: 70, rating: 5 },
        ],
    }
}

fn refused(change: impl FnOnce(&mut Tables)) -> bool {
    let mut tables = sound();
    change(&mut tables);
    Store::restore(tables).is_none()
}

#[test]
fn sound_tables_are_restored() {
    let mut store = Store::restore(sound()).unwrap();
    let board: Vec<(String, i64)> = store
        .list_chapters(1)
        .unwrap()
        .into_iter()
        .map(|c| (c.relative_path, c.visit_count))
        .collect();
    assert_eq!(board, vec![("/a".to_string(), 2), ("/b".to_string(), 1)]);
    assert_eq!(get_user(&store, T2).unwrap().display_name, "Bobby");
    assert_eq!(store.get_chapter_comments("/a".to_string()).unwrap().len(), 2);
    assert_eq!(store.init(T1, 20).unwrap().mentions, 1);
    // new rows are numbered behind the restored ones
    store.count("/c", 30).unwrap();
    assert_eq!(get_chapter(&mut store, "/c").unwrap().id, 3);
    assert!(store.vote(T1.to_string(), 71, 2).unwrap());
    let tables = store.tables();
    assert_eq!(tables.visits.last().unwrap().id, 4);
    assert_eq!(tables.votes.last().unwrap().id, 10);
}

/// The same rows under ids that a database sequence with gaps would give.
fn with_gaps() -> Tables {
    let mut t = sound();
    t.chapters[0].id = 4;
    t.chapters[1].id = 9;
    for v in t.visits.iter_mut() {
        v.chapter_id = if v.chapter_id == 1 { 4 } else { 9 };
    }
    t.visits[0].id = 2;
    t.visits[1].id = 3;
    t.visits[2].id = 50;
    t.users[0].id = 7;
    t.users[1].id = 8;
    t.comments[0].id = 10;
    t.comments[0].chapter_id = 4;
    t.comments[0].user_id = 7;
    t.comments[1].id = 30;
    t.comments[1].chapter_id = 9;
    t.comments[1].user_id = 8;
    t.mentions[0].id = 5;
    t.mentions[0].from_comment_id = 30;
    t.mentions[0].mentioned_user_id = 7;
    t.votes[0].user_id = 7;
    t.votes[1].user_id = 8;
    t
}

#[test]
fn tables_with_gaps_in_the_ids_are_restored() {
    let mut store = Store::restore(with_gaps()).unwrap();
    let board: Vec<(String, i64)> = store
        .list_chapters(1)
        .unwrap()
        .into_iter()
        .map(|c| (c.relative_path, c.visit_count))
        .collect();
    assert_eq!(board, vec![("/a".to_string(), 2), ("/b".to_string(), 1)]);
    assert_eq!(get_user_id(&store, T2), Some(8));
    let on_b = store.get_chapter_comments("/b".to_string()).unwrap();
    assert_eq!(on_b.len(), 1);
    assert_eq!((on_b[0].comment.id, on_b[0].user.id), (30, 8));
    assert_eq!(on_b[0].user.display_name, "Bobby");
    assert_eq!(store.init(T1, 20).unwrap().mentions, 1);
    // a comment is found by its id, not by its place
    assert_eq!(store.delete(2, T2.to_string()).unwrap(), false);
    assert_eq!(store.delete(30, T1.to_string()).unwrap(), false);
    assert_eq!(store.delete(30, T2.to_string()).unwrap(), true);
    assert!(store.get_chapter_comments("/b".to_string()).unwrap().is_empty());
    assert_eq!(store.get_chapter_comments("/a".to_string()).unwrap().len(), 1);
    assert_eq!(store.init(T1, 30).unwrap().mentions, 0);
    // new rows are numbered above the highest id
    store.count("/c", 40).unwrap();
    store.count("/a", 41).unwrap();
    assert!(store
        .send(T1.to_string(), "/c".to_string(), "hi".to_string(), 42, vec!["bobby".to_string()])
        .unwrap());
    let tables = store.tables();
    assert_eq!(tables.chapters.iter().map(|c| c.id).collect::<Vec<_>>(), vec![4, 9, 10]);
    assert_eq!(tables.chapters[0].visit_count, 3);
    assert_eq!(tables.visits.iter().map(|v| v.id).collect::<Vec<_>>(), vec![2, 3, 50, 51, 52]);
    assert_eq!(tables.visits[3].chapter_id, 10);
    assert_eq!(tables.comments.iter().map(|c| c.id).collect::<Vec<_>>(), vec![10, 30, 31]);
    assert_eq!((tables.comments[2].chapter_id, tables.comments[2].user_id), (10, 7));
    assert_eq!(tables.mentions.iter().map(|m| m.id).collect::<Vec<_>>(), vec![5, 6]);
    assert_eq!((tables.mentions[1].from_comment_id, tables.mentions[1].mentioned_user_id), (31, 8));
    assert!(Store::restore(tables).is_some());
}

#[test]
fn empty_tables_are_restored() {
    let tables = Tables {
        chapters: Vec::new(),
        visits: Vec::new(),
        users: Vec::new(),
        comments: Vec::new(),
        mentions: Vec::new(),
        votes: Vec::new(),
    };
    let store = Store::restore(tables).unwrap();
    assert!(store.list_all_chapters().is_empty());
}

#[test]
fn copied_tables_can_be_restored() {
    let mut store = Store::new();
    store.count("/a", 1).unwrap();
    store.count("/a", 2).unwrap();
    store
        .register(T1.to_string(), "alice".to_string(), "Alice".to_string(), None, 3)
        .unwrap();
    store
        .register(T2.to_string(), "bobby".to_string(), "Bobby".to_string(), None, 3)
        .unwrap();
    assert!(store
        .send(T1.to_string(), "/b".to_string(), "hi".to_string(), 4, vec!["bobby".to_string()])
        .unwrap());
    assert!(store.delete(1, T1.to_string()).unwrap());
    assert!(store.vote(T2.to_string(), 70, 4).unwrap());
    assert!(store.vote(T2.to_string(), 70, 0).unwrap());
    assert!(store.vote(T2.to_string(), 72, 1).unwrap());
    let tables = store.tables();
    assert_eq!(tables.chapters.len(), 2);
    assert_eq!(tables.chapters[0].visit_count, 2);
    assert_eq!(tables.visits.len(), 2);
    assert_eq!(tables.users.len(), 2);
    assert_eq!(tables.comments.len(), 1);
    assert!(tables.comments[0].deleted);
    assert_eq!(tables.mentions.len(), 1);
    assert_eq!(tables.mentions[0].mentioned_user_id, 2);
    assert_eq!(tables.votes.len(), 1);
    assert_eq!((tables.votes[0].id, tables.votes[0].chapter_vote_id), (2, 72));
    let again = Store::restore(tables).unwrap();
    assert_eq!(get_user_id(&again, T2), Some(2));
    assert_eq!(again.get_votes(T2.to_string()).unwrap().len(), 1);
}

#[test]
fn broken_chapters_are_refused() {
    assert!(refused(|t| t.chapters[1].id = 1));
    assert!(refused(|t| t.chapters[0].id = 0));
    assert!(refused(|t| t.chapters.swap(0, 1)));
    // a chapter under another id leaves its visits without a chapter
    assert!(refused(|t| t.chapters[1].id = 3));
    assert!(refused(|t| t.chapters[1].relative_path = "/a".to_string()));
    assert!(refused(|t| t.chapters[0].visit_count = 3));
    assert!(refused(|t| t.chapters[1].visit_count = -1));
    assert!(refused(|t| {
        t.visits.pop();
    }));
}

#[test]
fn broken_visits_are_refused() {
    assert!(refused(|t| t.visits[0].id = 2));
    assert!(refused(|t| t.visits[0].id = 0));
    assert!(!refused(|t| t.visits[2].id = 40));
    assert!(refused(|t| t.visits[1].chapter_id = 3));
    assert!(refused(|t| t.visits[1].chapter_id = 0));
    // a visit moved to the other chapter breaks both counters
    assert!(refused(|t| t.visits[1].chapter_id = 1));
}

#[test]
fn broken_users_are_refused() {
    assert!(refused(|t| t.users[1].id = 1));
    assert!(refused(|t| t.users[0].id = -1));
    assert!(refused(|t| t.users[1].token = T1.to_string()));
    assert!(refused(|t| t.users[1].user_name = "alice".to_string()));
    assert!(refused(|t| t.users[1].display_name = "Alice".to_string()));
    assert!(refused(|t| t.users[1].email = Some("a@x.y".to_string())));
    // two users without an address are no duplicate
    assert!(!refused(|t| t.users[0].email = None));
    assert!(!refused(|t| t.users[1].email = Some("b@x.y".to_string())));
}

#[test]
fn broken_comments_and_mentions_are_refused() {
    assert!(refused(|t| t.comments[0].id = 5));
    assert!(refused(|t| t.comments[0].id = 0));
    assert!(refused(|t| t.comments.swap(0, 1)));
    assert!(!refused(|t| t.comments[1].id = 5));
    assert!(refused(|t| t.mentions[0].id = 0));
    assert!(!refused(|t| t.mentions[0].id = 2));
    // a mention of a comment that is not there is kept, and never shown
    assert!(!refused(|t| t.mentions[0].from_comment_id = 99));
}

#[test]
fn broken_votes_are_refused() {
    assert!(refused(|t| t.votes[0].rating = 0));
    assert!(refused(|t| t.votes[1].user_id = 1));
    assert!(!refused(|t| t.votes[1].chapter_vote_id = 71));
    assert!(refused(|t| t.votes[0].rating = -2));
    assert!(refused(|t| t.votes[0].rating = 6));
    assert!(!refused(|t| t.votes[0].rating = 5));
    assert!(!refused(|t| t.votes[0].rating = 1));
}
