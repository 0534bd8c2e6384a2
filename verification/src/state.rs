//! The mathematical model of the store: six tables as sequences of rows,
//! the invariant that ties them together, and what each operation makes of
//! them.

use vstd::prelude::*;
use crate::codes::ErrorCode;
use crate::codes::Verdict;
use crate::models::ChapterRow;
use crate::models::CommentRow;
use crate::models::Mention;
use crate::models::UserRow;
use crate::models::Visit;
use crate::models::WTCup2020Vote;
use crate::ranking::page_of;
use crate::ranking::ranked;
use crate::validate::is_token_spec;

verus! {

/// The whole store, as plain values. Rows stand in the order in which they
/// were inserted.
pub struct State {
    pub chapters: Seq<ChapterRow>,
    pub visits: Seq<Visit>,
    pub users: Seq<UserRow>,
    pub comments: Seq<CommentRow>,
    pub mentions: Seq<Mention>,
    pub votes: Seq<WTCup2020Vote>,
    /// The id of the vote row that was inserted last.
    pub vote_serial: i64,
}

/// A comment together with its chapter's path and its author.
pub struct FeedRow {
    pub relative_path: Seq<char>,
    pub comment: CommentRow,
    pub user: UserRow,
}

/// What a session start reports.
pub struct InitRow {
    pub user_name: Seq<char>,
    pub display_name: Seq<char>,
    pub email: Option<Seq<char>>,
    pub mentions: i64,
}

/// The visits that belong to one chapter.
pub open spec fn visit_of(chapter_id: i32) -> spec_fn(Visit) -> bool {
    |v: Visit| v.chapter_id == chapter_id
}

/// The visits to one chapter that are later than a point in time.
pub open spec fn visit_since(chapter_id: i32, since: int) -> spec_fn(Visit) -> bool {
    |v: Visit| v.chapter_id == chapter_id && v.timestamp > since
}

/// How many visit rows a chapter has.
pub open spec fn count_visits(visits: Seq<Visit>, chapter_id: i32) -> nat {
    visits.filter(visit_of(chapter_id)).len()
}

/// The first `limit` items of a list, or all of them if it is shorter.
pub open spec fn first_items<T>(s: Seq<T>, limit: int) -> Seq<T> {
    if s.len() <= limit {
        s
    } else {
        s.subrange(0, limit)
    }
}

/// The highest id among vote rows; 0 if there is none above it.
pub open spec fn highest_vote_id(votes: Seq<WTCup2020Vote>) -> i64
    decreases votes.len(),
{
    if votes.len() == 0 {
        0
    } else {
        let rest = highest_vote_id(votes.drop_last());
        if votes.last().id > rest {
            votes.last().id
        } else {
            rest
        }
    }
}

/// The chapter at index `i` of a table has this id.
pub open spec fn chapter_has_id(chapters: Seq<ChapterRow>, id: i32, i: int) -> bool {
    0 <= i < chapters.len() && chapters[i].id == id
}

/// Some chapter of a table has this id.
pub open spec fn some_chapter_has_id(chapters: Seq<ChapterRow>, id: i32) -> bool {
    exists|i: int| chapter_has_id(chapters, id, i)
}

/// Where the chapter with this id stands in a table.
pub open spec fn index_of_chapter(chapters: Seq<ChapterRow>, id: i32) -> int {
    choose|i: int| chapter_has_id(chapters, id, i)
}

/// The user at index `i` of a table has this id.
pub open spec fn user_has_id(users: Seq<UserRow>, id: i64, i: int) -> bool {
    0 <= i < users.len() && users[i].id == id
}

/// Some user of a table has this id.
pub open spec fn some_user_has_id(users: Seq<UserRow>, id: i64) -> bool {
    exists|i: int| user_has_id(users, id, i)
}

/// Where the user with this id stands in a table.
pub open spec fn index_of_user(users: Seq<UserRow>, id: i64) -> int {
    choose|i: int| user_has_id(users, id, i)
}

/// The comment at index `i` of a table has this id.
pub open spec fn comment_has_id(comments: Seq<CommentRow>, id: i64, i: int) -> bool {
    0 <= i < comments.len() && comments[i].id == id
}

/// Some comment of a table has this id.
pub open spec fn some_comment_has_id(comments: Seq<CommentRow>, id: i64) -> bool {
    exists|i: int| comment_has_id(comments, id, i)
}

/// Where the comment with this id stands in a table.
pub open spec fn index_of_comment(comments: Seq<CommentRow>, id: i64) -> int {
    choose|i: int| comment_has_id(comments, id, i)
}

impl State {
    /// The store with nothing in it.
    pub open spec fn empty() -> State {
        State {
            chapters: Seq::empty(),
            visits: Seq::empty(),
            users: Seq::empty(),
            comments: Seq::empty(),
            mentions: Seq::empty(),
            votes: Seq::empty(),
            vote_serial: 0,
        }
    }

    // ----- the invariant -----

    /// Chapter ids are positive and ascend, paths are unique, and each
    /// counter equals the number of the chapter's visit rows. Visit ids are
    /// positive and ascend, and every visit names a chapter that is there.
    pub open spec fn chapters_wf(self) -> bool {
        &&& self.chapters.len() <= i32::MAX
        &&& forall|i: int| 0 <= i < self.chapters.len() ==> (#[trigger] self.chapters[i]).id >= 1
        &&& forall|i: int, j: int|
            0 <= i < j < self.chapters.len() ==> (#[trigger] self.chapters[i]).id < (
            #[trigger] self.chapters[j]).id
        &&& forall|i: int, j: int|
            0 <= i < j < self.chapters.len() ==> (#[trigger] self.chapters[i]).relative_path != (
            #[trigger] self.chapters[j]).relative_path
        &&& forall|i: int|
            0 <= i < self.chapters.len() ==> (#[trigger] self.chapters[i]).visit_count
                == count_visits(self.visits, self.chapters[i].id)
        &&& self.visits.len() <= i64::MAX
        &&& forall|i: int|
            0 <= i < self.visits.len() ==> (#[trigger] self.visits[i]).id >= 1
                && self.has_chapter_id(self.visits[i].chapter_id)
        &&& forall|i: int, j: int|
            0 <= i < j < self.visits.len() ==> (#[trigger] self.visits[i]).id < (
            #[trigger] self.visits[j]).id
    }

    /// User ids are positive and ascend; token, user name, display name
    /// and, where set, e-mail address are each unique.
    pub open spec fn users_wf(self) -> bool {
        &&& self.users.len() <= i64::MAX
        &&& forall|i: int| 0 <= i < self.users.len() ==> (#[trigger] self.users[i]).id >= 1
        &&& forall|i: int, j: int|
            0 <= i < j < self.users.len() ==> (#[trigger] self.users[i]).id < (
            #[trigger] self.users[j]).id
        &&& forall|i: int, j: int|
            0 <= i < j < self.users.len() ==> (#[trigger] self.users[i]).token != (
            #[trigger] self.users[j]).token
        &&& forall|i: int, j: int|
            0 <= i < j < self.users.len() ==> (#[trigger] self.users[i]).user_name != (
            #[trigger] self.users[j]).user_name
        &&& forall|i: int, j: int|
            0 <= i < j < self.users.len() ==> (#[trigger] self.users[i]).display_name != (
            #[trigger] self.users[j]).display_name
        &&& forall|i: int, j: int|
            0 <= i < j < self.users.len() && (#[trigger] self.users[i]).email.is_some()
                ==> self.users[i].email != (#[trigger] self.users[j]).email
    }

    /// Comment ids are positive and ascend, and so are mention ids.
    pub open spec fn comments_wf(self) -> bool {
        &&& self.comments.len() <= i64::MAX
        &&& forall|i: int| 0 <= i < self.comments.len() ==> (#[trigger] self.comments[i]).id >= 1
        &&& forall|i: int, j: int|
            0 <= i < j < self.comments.len() ==> (#[trigger] self.comments[i]).id < (
            #[trigger] self.comments[j]).id
        &&& self.mentions.len() <= i64::MAX
        &&& forall|i: int| 0 <= i < self.mentions.len() ==> (#[trigger] self.mentions[i]).id >= 1
        &&& forall|i: int, j: int|
            0 <= i < j < self.mentions.len() ==> (#[trigger] self.mentions[i]).id < (
            #[trigger] self.mentions[j]).id
    }

    /// Every vote row has a rating from 1 to 5, and no user has two rows
    /// for one candidate.
    pub open spec fn votes_wf(self) -> bool {
        &&& forall|i: int| 0 <= i < self.votes.len() ==> 1 <= (#[trigger] self.votes[i]).rating <= 5
        &&& forall|i: int, j: int|
            0 <= i < j < self.votes.len() ==> !((#[trigger] self.votes[i]).user_id == (
            #[trigger] self.votes[j]).user_id && self.votes[i].chapter_vote_id
                == self.votes[j].chapter_vote_id)
    }

    /// The invariant of the store.
    pub open spec fn wf(self) -> bool {
        &&& self.chapters_wf()
        &&& self.users_wf()
        &&& self.comments_wf()
        &&& self.votes_wf()
    }

    // ----- chapters and visits -----

    /// The chapter at index `i` has this path.
    pub open spec fn chapter_at(self, path: Seq<char>, i: int) -> bool {
        0 <= i < self.chapters.len() && self.chapters[i].relative_path == path
    }

    /// Some chapter has this path.
    pub open spec fn has_chapter(self, path: Seq<char>) -> bool {
        exists|i: int| self.chapter_at(path, i)
    }

    /// Where the chapter with this path stands.
    pub open spec fn chapter_index(self, path: Seq<char>) -> int {
        choose|i: int| self.chapter_at(path, i)
    }

    /// The chapter at index `i` has this id.
    pub open spec fn chapter_id_at(self, id: i32, i: int) -> bool {
        chapter_has_id(self.chapters, id, i)
    }

    /// Some chapter has this id.
    pub open spec fn has_chapter_id(self, id: i32) -> bool {
        some_chapter_has_id(self.chapters, id)
    }

    /// Where the chapter with this id stands.
    pub open spec fn chapter_id_index(self, id: i32) -> int {
        index_of_chapter(self.chapters, id)
    }

    /// The id that the next chapter gets: one above the highest.
    pub open spec fn next_chapter_id(self) -> int {
        if self.chapters.len() == 0 {
            1
        } else {
            self.chapters.last().id + 1
        }
    }

    /// The id that the next visit gets: one above the highest.
    pub open spec fn next_visit_id(self) -> int {
        if self.visits.len() == 0 {
            1
        } else {
            self.visits.last().id + 1
        }
    }

    /// No further chapter row can be numbered.
    pub open spec fn chapters_full(self) -> bool {
        self.next_chapter_id() > i32::MAX
    }

    /// The store after the chapter with this path was looked up, and
    /// inserted with a counter of 0 if it was not there.
    pub open spec fn with_chapter(self, path: Seq<char>) -> State {
        if self.has_chapter(path) || self.chapters_full() {
            self
        } else {
            State {
                chapters: self.chapters.push(
                    ChapterRow {
                        id: self.next_chapter_id() as i32,
                        relative_path: path,
                        visit_count: 0,
                    },
                ),
                ..self
            }
        }
    }

    /// A visit to this path cannot be recorded for want of ids.
    pub open spec fn visit_fault(self, path: Seq<char>) -> bool {
        self.next_visit_id() > i64::MAX || (!self.has_chapter(path) && self.chapters_full())
    }

    /// The store after one visit to `path` at time `now`: the chapter is
    /// there, it has one more visit row, and its counter is one higher.
    pub open spec fn record_visit(self, path: Seq<char>, now: i64) -> State {
        if self.visit_fault(path) {
            self
        } else {
            let s = self.with_chapter(path);
            let i = s.chapter_index(path);
            let c = s.chapters[i];
            State {
                chapters: s.chapters.update(
                    i,
                    ChapterRow { visit_count: (c.visit_count + 1) as i64, ..c },
                ),
                visits: s.visits.push(
                    Visit { id: s.next_visit_id() as i64, chapter_id: c.id, timestamp: now },
                ),
                ..s
            }
        }
    }

    /// The key by which a chapter is ranked for all time.
    pub open spec fn chapter_key() -> spec_fn(ChapterRow) -> (i64, i32) {
        |c: ChapterRow| (c.visit_count, c.id)
    }

    /// How many visits a chapter has had after a point in time.
    pub open spec fn recent_count(self, chapter_id: i32, since: int) -> nat {
        self.visits.filter(visit_since(chapter_id, since)).len()
    }

    /// The key by which a chapter is ranked for the time after `since`.
    pub open spec fn recent_key(self, since: int) -> spec_fn(ChapterRow) -> (i64, i32) {
        |c: ChapterRow| (self.recent_count(c.id, since) as i64, c.id)
    }

    /// The keys with a count above 0.
    pub open spec fn visited() -> spec_fn((i64, i32)) -> bool {
        |k: (i64, i32)| k.0 > 0
    }

    /// The keys of all chapters.
    pub open spec fn all_keys(self) -> Seq<(i64, i32)> {
        self.chapters.map_values(Self::chapter_key())
    }

    /// The keys of the chapters that were visited after `since`.
    pub open spec fn recent_keys(self, since: int) -> Seq<(i64, i32)> {
        self.chapters.map_values(self.recent_key(since)).filter(Self::visited())
    }

    /// A key as a leaderboard shows it: the chapter's path and the count.
    pub open spec fn info_of(self) -> spec_fn((i64, i32)) -> (Seq<char>, i64) {
        |k: (i64, i32)| (self.chapters[self.chapter_id_index(k.1)].relative_path, k.0)
    }

    /// Page `page` of the chapters ranked by their visits of all time.
    pub open spec fn list_chapters(self, page: int) -> Seq<(Seq<char>, i64)> {
        page_of(ranked(self.all_keys()), page).map_values(self.info_of())
    }

    /// Page `page` of the chapters visited after `since`, ranked by their
    /// visits after `since`.
    pub open spec fn list_recent_chapters(self, page: int, since: int) -> Seq<(Seq<char>, i64)> {
        page_of(ranked(self.recent_keys(since)), page).map_values(self.info_of())
    }

    /// All chapters, in the order of their ids.
    pub open spec fn list_all_chapters(self) -> Seq<(Seq<char>, i64)> {
        self.chapters.map_values(|c: ChapterRow| (c.relative_path, c.visit_count))
    }

    // ----- users -----

    /// The user at index `i` has this token.
    pub open spec fn token_at(self, token: Seq<char>, i: int) -> bool {
        0 <= i < self.users.len() && self.users[i].token == token
    }

    /// Some user has this token.
    pub open spec fn token_known(self, token: Seq<char>) -> bool {
        exists|i: int| self.token_at(token, i)
    }

    /// Where the user with this token stands.
    pub open spec fn token_index(self, token: Seq<char>) -> int {
        choose|i: int| self.token_at(token, i)
    }

    /// Where the user with this token stands; none if the text has not the
    /// shape of a token or no user has it.
    pub open spec fn resolve(self, token: Seq<char>) -> Option<int> {
        if is_token_spec(token) && self.token_known(token) {
            Some(self.token_index(token))
        } else {
            None
        }
    }

    /// The user at index `i` has this user name.
    pub open spec fn name_at(self, user_name: Seq<char>, i: int) -> bool {
        0 <= i < self.users.len() && self.users[i].user_name == user_name
    }

    /// Some user has this user name.
    pub open spec fn name_known(self, user_name: Seq<char>) -> bool {
        exists|i: int| self.name_at(user_name, i)
    }

    /// Where the user with this user name stands.
    pub open spec fn name_index(self, user_name: Seq<char>) -> int {
        choose|i: int| self.name_at(user_name, i)
    }

    /// The id of the user with this user name.
    pub open spec fn user_id_by_name(self, user_name: Seq<char>) -> Option<i64> {
        if self.name_known(user_name) {
            Some(self.users[self.name_index(user_name)].id)
        } else {
            None
        }
    }

    /// The user at index `i` has this id.
    pub open spec fn user_id_at(self, id: i64, i: int) -> bool {
        user_has_id(self.users, id, i)
    }

    /// Some user has this id.
    pub open spec fn has_user_id(self, id: i64) -> bool {
        some_user_has_id(self.users, id)
    }

    /// Where the user with this id stands.
    pub open spec fn user_id_index(self, id: i64) -> int {
        index_of_user(self.users, id)
    }

    /// The id that the next user gets: one above the highest.
    pub open spec fn next_user_id(self) -> int {
        if self.users.len() == 0 {
            1
        } else {
            self.users.last().id + 1
        }
    }

    /// Some user has this display name, or this user name.
    pub open spec fn name_taken(self, display_name: Seq<char>, user_name: Seq<char>) -> bool {
        exists|i: int|
            0 <= i < self.users.len() && ((#[trigger] self.users[i]).display_name == display_name
                || self.users[i].user_name == user_name)
    }

    /// Some user has this e-mail address.
    pub open spec fn email_taken(self, email: Seq<char>) -> bool {
        exists|i: int| 0 <= i < self.users.len() && (#[trigger] self.users[i]).email == Some(email)
    }

    /// Why a registration is turned down, if it is.
    pub open spec fn register_verdict(
        self,
        user_name: Seq<char>,
        display_name: Seq<char>,
        email: Option<Seq<char>>,
    ) -> Option<ErrorCode> {
        if self.name_taken(display_name, user_name) {
            Some(ErrorCode::NameDuplicated)
        } else if email.is_some() && self.email_taken(email.unwrap()) {
            Some(ErrorCode::EmailDuplicated)
        } else {
            None
        }
    }

    /// An admissible registration cannot be stored: the token is some
    /// user's already, or the ids have run out.
    pub open spec fn register_fault(
        self,
        token: Seq<char>,
        user_name: Seq<char>,
        display_name: Seq<char>,
        email: Option<Seq<char>>,
    ) -> bool {
        self.register_verdict(user_name, display_name, email).is_none() && (self.token_known(token)
            || self.next_user_id() > i64::MAX)
    }

    /// The store after a registration: one more user, if nothing spoke
    /// against it.
    pub open spec fn register(
        self,
        token: Seq<char>,
        user_name: Seq<char>,
        display_name: Seq<char>,
        email: Option<Seq<char>>,
        now: i64,
    ) -> State {
        if self.register_verdict(user_name, display_name, email).is_some() || self.register_fault(
            token,
            user_name,
            display_name,
            email,
        ) {
            self
        } else {
            State {
                users: self.users.push(
                    UserRow {
                        id: self.next_user_id() as i64,
                        token,
                        email,
                        user_name,
                        display_name,
                        disabled: false,
                        last_checked_mentions_timestamp: now,
                    },
                ),
                ..self
            }
        }
    }

    /// A user with another token has this display name.
    pub open spec fn other_has_name(self, token: Seq<char>, display_name: Seq<char>) -> bool {
        exists|i: int|
            0 <= i < self.users.len() && (#[trigger] self.users[i]).token != token
                && self.users[i].display_name == display_name
    }

    /// A user with another token has this e-mail address.
    pub open spec fn other_has_email(self, token: Seq<char>, email: Seq<char>) -> bool {
        exists|i: int|
            0 <= i < self.users.len() && (#[trigger] self.users[i]).token != token
                && self.users[i].email == Some(email)
    }

    /// How a profile update ends.
    pub open spec fn update_verdict(
        self,
        token: Seq<char>,
        display_name: Seq<char>,
        email: Option<Seq<char>>,
    ) -> Verdict {
        if self.resolve(token).is_none() {
            Verdict::Forbidden
        } else if self.other_has_name(token, display_name) {
            Verdict::Error(ErrorCode::NameDuplicated)
        } else if email.is_some() && self.other_has_email(token, email.unwrap()) {
            Verdict::Error(ErrorCode::EmailDuplicated)
        } else {
            Verdict::Success
        }
    }

    /// The store after a profile update: on success the caller's row has
    /// the new display name and e-mail address, and nothing else changed.
    pub open spec fn update_profile(
        self,
        token: Seq<char>,
        display_name: Seq<char>,
        email: Option<Seq<char>>,
    ) -> State {
        if self.update_verdict(token, display_name, email) == Verdict::Success {
            let u = self.resolve(token).unwrap();
            State {
                users: self.users.update(u, UserRow { email, display_name, ..self.users[u] }),
                ..self
            }
        } else {
            self
        }
    }

    /// The comment at index `i` has this id.
    pub open spec fn comment_at(self, comment_id: i64, i: int) -> bool {
        comment_has_id(self.comments, comment_id, i)
    }

    /// Some comment has this id.
    pub open spec fn has_comment(self, comment_id: i64) -> bool {
        some_comment_has_id(self.comments, comment_id)
    }

    /// Where the comment with this id stands.
    pub open spec fn comment_index(self, comment_id: i64) -> int {
        index_of_comment(self.comments, comment_id)
    }

    /// The comment with this id is there and not deleted.
    pub open spec fn live_comment(self, comment_id: i64) -> bool {
        self.has_comment(comment_id) && !self.comments[self.comment_index(comment_id)].deleted
    }

    /// The mentions of a user, on comments that are not deleted, from a
    /// point in time on.
    pub open spec fn unseen(self, user_id: i64, since: i64) -> spec_fn(Mention) -> bool {
        |m: Mention|
            m.mentioned_user_id == user_id && m.timestamp >= since && self.live_comment(
                m.from_comment_id,
            )
    }

    /// How many mentions of a user are unseen since a point in time.
    pub open spec fn unseen_count(self, user_id: i64, since: i64) -> nat {
        self.mentions.filter(self.unseen(user_id, since)).len()
    }

    /// The store after user `u` has looked at their mentions at time `now`.
    pub open spec fn touch(self, u: int, now: i64) -> State {
        State {
            users: self.users.update(
                u,
                UserRow { last_checked_mentions_timestamp: now, ..self.users[u] },
            ),
            ..self
        }
    }

    /// The store after a session start, or after a look at the mentions.
    pub open spec fn checked(self, token: Seq<char>, now: i64) -> State {
        match self.resolve(token) {
            Some(u) => self.touch(u, now),
            None => self,
        }
    }

    /// What a session start reports: the profile, and the number of
    /// mentions since the user last looked.
    pub open spec fn init_row(self, token: Seq<char>) -> Option<InitRow> {
        match self.resolve(token) {
            Some(u) => Some(
                InitRow {
                    user_name: self.users[u].user_name,
                    display_name: self.users[u].display_name,
                    email: self.users[u].email,
                    mentions: self.unseen_count(
                        self.users[u].id,
                        self.users[u].last_checked_mentions_timestamp,
                    ) as i64,
                },
            ),
            None => None,
        }
    }

    // ----- comments -----

    /// A comment is shown if it is not deleted and its chapter and author
    /// exist.
    pub open spec fn shown(self, c: CommentRow) -> bool {
        &&& !c.deleted
        &&& self.has_chapter_id(c.chapter_id)
        &&& self.has_user_id(c.user_id)
    }

    /// A comment with the path of its chapter and the row of its author.
    pub open spec fn joined(self, c: CommentRow) -> FeedRow {
        FeedRow {
            relative_path: self.chapters[self.chapter_id_index(c.chapter_id)].relative_path,
            comment: c,
            user: self.users[self.user_id_index(c.user_id)],
        }
    }

    /// Of the first `n` comments, those that are shown and that `keep`
    /// selects, the newest first.
    pub open spec fn feed(self, keep: spec_fn(CommentRow) -> bool, n: int) -> Seq<FeedRow>
        decreases n,
    {
        if n <= 0 || n > self.comments.len() {
            Seq::empty()
        } else {
            let c = self.comments[n - 1];
            if self.shown(c) && keep(c) {
                seq![self.joined(c)] + self.feed(keep, n - 1)
            } else {
                self.feed(keep, n - 1)
            }
        }
    }

    /// The comments on the chapter with this path.
    pub open spec fn on_path(self, path: Seq<char>) -> spec_fn(CommentRow) -> bool {
        |c: CommentRow|
            self.has_chapter_id(c.chapter_id) && self.chapters[self.chapter_id_index(
                c.chapter_id,
            )].relative_path == path
    }

    /// Every comment.
    pub open spec fn any_comment() -> spec_fn(CommentRow) -> bool {
        |c: CommentRow| true
    }

    /// The mention at index `k` leads from this comment to this user.
    pub open spec fn mention_at(self, comment_id: i64, user_id: i64, k: int) -> bool {
        0 <= k < self.mentions.len() && self.mentions[k].from_comment_id == comment_id
            && self.mentions[k].mentioned_user_id == user_id
    }

    /// The comments that mention this user.
    pub open spec fn mentioning(self, user_id: i64) -> spec_fn(CommentRow) -> bool {
        |c: CommentRow| exists|k: int| self.mention_at(c.id, user_id, k)
    }

    /// The comments of one chapter that are not deleted, newest first.
    pub open spec fn chapter_comments(self, path: Seq<char>) -> Seq<FeedRow> {
        self.feed(self.on_path(path), self.comments.len() as int)
    }

    /// The 50 newest comments that are not deleted, newest first.
    pub open spec fn recent_comments(self) -> Seq<FeedRow> {
        first_items(self.feed(Self::any_comment(), self.comments.len() as int), 50)
    }

    /// The 50 newest comments that are not deleted and mention the user
    /// with this token, newest first; none if the token resolves to nobody.
    pub open spec fn recent_mentioned(self, token: Seq<char>) -> Seq<FeedRow> {
        match self.resolve(token) {
            Some(u) => first_items(
                self.feed(self.mentioning(self.users[u].id), self.comments.len() as int),
                50,
            ),
            None => Seq::empty(),
        }
    }

    /// The ids of the users that these user names stand for, in the order
    /// of the names; a name that nobody has gives none.
    pub open spec fn resolved_ids(self, names: Seq<Seq<char>>) -> Seq<i64> {
        names.filter_map(self.name_resolver())
    }

    /// The id that a user name resolves to, if any.
    pub open spec fn name_resolver(self) -> spec_fn(Seq<char>) -> Option<i64> {
        |n: Seq<char>| self.user_id_by_name(n)
    }

    /// A candidate with its rating.
    pub open spec fn ballot() -> spec_fn(WTCup2020Vote) -> (i16, i16) {
        |v: WTCup2020Vote| (v.chapter_vote_id, v.rating)
    }

    /// The id that the next comment gets: one above the highest.
    pub open spec fn next_comment_id(self) -> int {
        if self.comments.len() == 0 {
            1
        } else {
            self.comments.last().id + 1
        }
    }

    /// The id that the next mention gets: one above the highest.
    pub open spec fn next_mention_id(self) -> int {
        if self.mentions.len() == 0 {
            1
        } else {
            self.mentions.last().id + 1
        }
    }

    /// A comment by a known user cannot be stored for want of ids.
    pub open spec fn send_fault(self, token: Seq<char>, path: Seq<char>, names: Seq<Seq<char>>) -> bool {
        &&& self.resolve(token).is_some()
        &&& (self.next_comment_id() > i64::MAX || self.next_mention_id() + names.len() > i64::MAX
            + 1 || (!self.has_chapter(path) && self.chapters_full()))
    }

    /// Whether a comment is stored.
    pub open spec fn send_ok(self, token: Seq<char>, path: Seq<char>, names: Seq<Seq<char>>) -> bool {
        self.resolve(token).is_some() && !self.send_fault(token, path, names)
    }

    /// The mention rows that a new comment brings.
    pub open spec fn new_mentions(self, comment_id: i64, names: Seq<Seq<char>>, now: i64) -> Seq<
        Mention,
    > {
        let ids = self.resolved_ids(names);
        Seq::new(
            ids.len(),
            |k: int|
                Mention {
                    id: (self.next_mention_id() + k) as i64,
                    from_comment_id: comment_id,
                    mentioned_user_id: ids[k],
                    timestamp: now,
                },
        )
    }

    /// The store after a comment was posted: the chapter is there, the
    /// comment is its newest row, and each name that resolves has brought a
    /// mention row.
    pub open spec fn send(
        self,
        token: Seq<char>,
        path: Seq<char>,
        content: Seq<char>,
        now: i64,
        names: Seq<Seq<char>>,
    ) -> State {
        if !self.send_ok(token, path, names) {
            self
        } else {
            let s = self.with_chapter(path);
            let comment_id = s.next_comment_id() as i64;
            State {
                comments: s.comments.push(
                    CommentRow {
                        id: comment_id,
                        chapter_id: s.chapters[s.chapter_index(path)].id,
                        user_id: s.users[s.resolve(token).unwrap()].id,
                        content,
                        deleted: false,
                        create_timestamp: now,
                        update_timestamp: now,
                    },
                ),
                mentions: s.mentions + s.new_mentions(comment_id, names, now),
                ..s
            }
        }
    }

    /// Whether a comment is deleted by this call: it is there, not yet
    /// deleted, and the caller's own.
    pub open spec fn delete_ok(self, comment_id: i64, token: Seq<char>) -> bool {
        &&& self.resolve(token).is_some()
        &&& self.live_comment(comment_id)
        &&& self.comments[self.comment_index(comment_id)].user_id
            == self.users[self.resolve(token).unwrap()].id
    }

    /// The store after a delete: the comment is flagged, if the call was
    /// entitled to it.
    pub open spec fn delete(self, comment_id: i64, token: Seq<char>) -> State {
        if self.delete_ok(comment_id, token) {
            State {
                comments: self.comments.update(
                    self.comment_index(comment_id),
                    CommentRow { deleted: true, ..self.comments[self.comment_index(comment_id)] },
                ),
                ..self
            }
        } else {
            self
        }
    }

    // ----- votes -----

    /// The vote at index `i` is this user's vote for this candidate.
    pub open spec fn vote_at(self, user_id: i64, chapter_vote_id: i16, i: int) -> bool {
        0 <= i < self.votes.len() && self.votes[i].user_id == user_id
            && self.votes[i].chapter_vote_id == chapter_vote_id
    }

    /// The user has a vote for the candidate.
    pub open spec fn has_vote(self, user_id: i64, chapter_vote_id: i16) -> bool {
        exists|i: int| self.vote_at(user_id, chapter_vote_id, i)
    }

    /// Where the user's vote for the candidate stands.
    pub open spec fn vote_index(self, user_id: i64, chapter_vote_id: i16) -> int {
        choose|i: int| self.vote_at(user_id, chapter_vote_id, i)
    }

    /// A new vote row cannot be numbered.
    pub open spec fn vote_fault(self, token: Seq<char>, chapter_vote_id: i16, rating: i16) -> bool {
        &&& self.resolve(token).is_some()
        &&& 1 <= rating <= 5
        &&& !self.has_vote(self.users[self.resolve(token).unwrap()].id, chapter_vote_id)
        &&& self.vote_serial >= i64::MAX
    }

    /// Whether a vote changes exactly one row: a rating from 1 to 5 is
    /// inserted or updated, or an existing row is removed by rating 0. A
    /// rating outside 0 to 5 changes nothing.
    pub open spec fn vote_ok(self, token: Seq<char>, chapter_vote_id: i16, rating: i16) -> bool {
        &&& self.resolve(token).is_some()
        &&& 0 <= rating <= 5
        &&& !self.vote_fault(token, chapter_vote_id, rating)
        &&& (rating != 0 || self.has_vote(
            self.users[self.resolve(token).unwrap()].id,
            chapter_vote_id,
        ))
    }

    /// The store after a vote.
    pub open spec fn vote(self, token: Seq<char>, chapter_vote_id: i16, rating: i16) -> State {
        if !self.vote_ok(token, chapter_vote_id, rating) {
            self
        } else {
            let user_id = self.users[self.resolve(token).unwrap()].id;
            if self.has_vote(user_id, chapter_vote_id) {
                let i = self.vote_index(user_id, chapter_vote_id);
                if rating == 0 {
                    State { votes: self.votes.remove(i), ..self }
                } else {
                    State {
                        votes: self.votes.update(i, WTCup2020Vote { rating, ..self.votes[i] }),
                        ..self
                    }
                }
            } else {
                State {
                    votes: self.votes.push(
                        WTCup2020Vote {
                            id: (self.vote_serial + 1) as i64,
                            user_id,
                            chapter_vote_id,
                            rating,
                        },
                    ),
                    vote_serial: (self.vote_serial + 1) as i64,
                    ..self
                }
            }
        }
    }

    /// The votes of one user.
    pub open spec fn vote_by(user_id: i64) -> spec_fn(WTCup2020Vote) -> bool {
        |v: WTCup2020Vote| v.user_id == user_id
    }

    /// The votes of the user with this token, as pairs of candidate and
    /// rating, in the order of their rows; none if the token resolves to
    /// nobody.
    pub open spec fn votes_of(self, token: Seq<char>) -> Seq<(i16, i16)> {
        match self.resolve(token) {
            Some(u) => self.votes.filter(Self::vote_by(self.users[u].id)).map_values(
                Self::ballot(),
            ),
            None => Seq::empty(),
        }
    }
}

} // verus!
