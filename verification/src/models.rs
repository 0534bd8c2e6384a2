//! The rows of the six tables, and the mathematical value each stands for.

use vstd::prelude::*;

verus! {

/// A content page, known by its path, with its running visit counter.
#[derive(Debug)]
pub struct Chapter {
    pub id: i32,
    pub relative_path: String,
    pub visit_count: i64,
}

/// What a [`Chapter`] holds, as plain values.
pub struct ChapterRow {
    pub id: i32,
    pub relative_path: Seq<char>,
    pub visit_count: i64,
}

impl View for Chapter {
    type V = ChapterRow;

    open spec fn view(&self) -> ChapterRow {
        ChapterRow {
            id: self.id,
            relative_path: self.relative_path@,
            visit_count: self.visit_count,
        }
    }
}

impl Chapter {
    /// A second row with the same contents.
    pub fn duplicate(&self) -> (r: Chapter)
        ensures
            r@ == self@,
    {
        Chapter {
            id: self.id,
            relative_path: self.relative_path.clone(),
            visit_count: self.visit_count,
        }
    }
}

/// One counted visit to a chapter.
#[derive(Clone, Copy, Debug, PartialEq, Eq, Structural)]
pub struct Visit {
    pub id: i64,
    pub chapter_id: i32,
    pub timestamp: i64,
}

/// A registered reader.
#[derive(Debug)]
pub struct User {
    pub id: i64,
    pub token: String,
    pub email: Option<String>,
    pub user_name: String,
    pub display_name: String,
    pub disabled: bool,
    pub last_checked_mentions_timestamp: i64,
}

/// What a [`User`] holds, as plain values.
pub struct UserRow {
    pub id: i64,
    pub token: Seq<char>,
    pub email: Option<Seq<char>>,
    pub user_name: Seq<char>,
    pub display_name: Seq<char>,
    pub disabled: bool,
    pub last_checked_mentions_timestamp: i64,
}

/// The text behind an optional string.
pub open spec fn text_of(s: Option<String>) -> Option<Seq<char>> {
    match s {
        Some(t) => Some(t@),
        None => None,
    }
}

/// A second optional string with the same text.
pub fn duplicate_text(s: &Option<String>) -> (r: Option<String>)
    ensures
        text_of(r) == text_of(*s),
{
    match s {
        Some(t) => Some(t.clone()),
        None => None,
    }
}

impl View for User {
    type V = UserRow;

    open spec fn view(&self) -> UserRow {
        UserRow {
            id: self.id,
            token: self.token@,
            email: text_of(self.email),
            user_name: self.user_name@,
            display_name: self.display_name@,
            disabled: self.disabled,
            last_checked_mentions_timestamp: self.last_checked_mentions_timestamp,
        }
    }
}

impl User {
    /// A second row with the same contents.
    pub fn duplicate(&self) -> (r: User)
        ensures
            r@ == self@,
    {
        User {
            id: self.id,
            token: self.token.clone(),
            email: duplicate_text(&self.email),
            user_name: self.user_name.clone(),
            display_name: self.display_name.clone(),
            disabled: self.disabled,
            last_checked_mentions_timestamp: self.last_checked_mentions_timestamp,
        }
    }
}

/// A comment on a chapter. A deleted comment stays in the table, flagged.
#[derive(Debug)]
pub struct Comment {
    pub id: i64,
    pub chapter_id: i32,
    pub user_id: i64,
    pub content: String,
    pub deleted: bool,
    pub create_timestamp: i64,
    pub update_timestamp: i64,
}

/// What a [`Comment`] holds, as plain values.
pub struct CommentRow {
    pub id: i64,
    pub chapter_id: i32,
    pub user_id: i64,
    pub content: Seq<char>,
    pub deleted: bool,
    pub create_timestamp: i64,
    pub update_timestamp: i64,
}

impl View for Comment {
    type V = CommentRow;

    open spec fn view(&self) -> CommentRow {
        CommentRow {
            id: self.id,
            chapter_id: self.chapter_id,
            user_id: self.user_id,
            content: self.content@,
            deleted: self.deleted,
            create_timestamp: self.create_timestamp,
            update_timestamp: self.update_timestamp,
        }
    }
}

impl Comment {
    /// A second row with the same contents.
    pub fn duplicate(&self) -> (r: Comment)
        ensures
            r@ == self@,
    {
        Comment {
            id: self.id,
            chapter_id: self.chapter_id,
            user_id: self.user_id,
            content: self.content.clone(),
            deleted: self.deleted,
            create_timestamp: self.create_timestamp,
            update_timestamp: self.update_timestamp,
        }
    }
}

/// A reference from a comment to a user named in it.
#[derive(Clone, Copy, Debug, PartialEq, Eq, Structural)]
pub struct Mention {
    pub id: i64,
    pub from_comment_id: i64,
    pub mentioned_user_id: i64,
    pub timestamp: i64,
}

/// One user's rating of one candidate of the chapter cup.
#[derive(Clone, Copy, Debug, PartialEq, Eq, Structural)]
pub struct WTCup2020Vote {
    pub id: i64,
    pub user_id: i64,
    pub chapter_vote_id: i16,
    pub rating: i16,
}

/// The values behind a table of chapters.
pub open spec fn chapter_rows(v: Seq<Chapter>) -> Seq<ChapterRow> {
    Seq::new(v.len(), |i: int| v[i]@)
}

/// The values behind a table of users.
pub open spec fn user_rows(v: Seq<User>) -> Seq<UserRow> {
    Seq::new(v.len(), |i: int| v[i]@)
}

/// The values behind a table of comments.
pub open spec fn comment_rows(v: Seq<Comment>) -> Seq<CommentRow> {
    Seq::new(v.len(), |i: int| v[i]@)
}

/// The texts behind a list of strings.
pub open spec fn texts(v: Seq<String>) -> Seq<Seq<char>> {
    Seq::new(v.len(), |i: int| v[i]@)
}

} // verus!
