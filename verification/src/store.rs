//! The store itself: six tables in memory, and the operations on them.
//! Each operation is one transaction: it either does all of its work or
//! leaves the store as it was.

use vstd::prelude::*;
use crate::codes::APIResult;
use crate::codes::Empty;
use crate::codes::ErrorCode;
use crate::error::Fault;
use crate::error::WTError;
use crate::laws::law_delete_once;
use crate::laws::other_than;
use crate::models::Chapter;
use crate::models::Comment;
use crate::models::CommentRow;
use crate::models::Mention;
use crate::models::User;
use crate::models::Visit;
use crate::models::WTCup2020Vote;
use crate::models::chapter_rows;
use crate::models::comment_rows;
use crate::models::duplicate_text;
use crate::models::text_of;
use crate::models::texts;
use crate::models::user_rows;
use crate::ranking::TimeFrame;
use crate::ranking::lemma_ranked;
use crate::ranking::page_keys;
use crate::ranking::page_of;
use crate::ranking::rank_keys;
use crate::ranking::ranked;
use crate::state::FeedRow;
use crate::state::InitRow;
use crate::state::State;
use crate::tables::chapters_hold;
use crate::tables::comments_hold;
use crate::tables::highest_id;
use crate::tables::users_hold;
use crate::tables::votes_hold;
use crate::tables::Tables;
use crate::state::chapter_has_id;
use crate::state::comment_has_id;
use crate::state::first_items;
use crate::state::user_has_id;
use crate::state::visit_since;
use crate::validate::is_token;

verus! {

/// The six tables. Rows stand in the order of their ids, which need
/// not be consecutive.
pub struct Store {
    chapters: Vec<Chapter>,
    visits: Vec<Visit>,
    users: Vec<User>,
    comments: Vec<Comment>,
    mentions: Vec<Mention>,
    votes: Vec<WTCup2020Vote>,
    vote_serial: i64,
}

impl View for Store {
    type V = State;

    closed spec fn view(&self) -> State {
        State {
            chapters: chapter_rows(self.chapters@),
            visits: self.visits@,
            users: user_rows(self.users@),
            comments: comment_rows(self.comments@),
            mentions: self.mentions@,
            votes: self.votes@,
            vote_serial: self.vote_serial,
        }
    }
}

/// What a successful registration hands back.
#[derive(Debug)]
pub struct RegisterResponse {
    pub token: String,
    pub user_name: String,
}

/// What a session start reports.
#[derive(Debug)]
pub struct InitResult {
    pub user_name: String,
    pub display_name: String,
    pub email: Option<String>,
    pub mentions: i64,
}

impl View for InitResult {
    type V = InitRow;

    open spec fn view(&self) -> InitRow {
        InitRow {
            user_name: self.user_name@,
            display_name: self.display_name@,
            email: text_of(self.email),
            mentions: self.mentions,
        }
    }
}

/// A comment together with its chapter's path and its author.
#[derive(Debug)]
pub struct SingleCommentQueryResult {
    pub relative_path: String,
    pub comment: Comment,
    pub user: User,
}

impl View for SingleCommentQueryResult {
    type V = FeedRow;

    open spec fn view(&self) -> FeedRow {
        FeedRow { relative_path: self.relative_path@, comment: self.comment@, user: self.user@ }
    }
}

/// The values behind a list of joined comments.
pub open spec fn feed_rows(v: Seq<SingleCommentQueryResult>) -> Seq<FeedRow> {
    Seq::new(v.len(), |i: int| v[i]@)
}

/// One vote, as a client sees it.
#[derive(Clone, Copy, Debug, PartialEq, Eq, Structural)]
pub struct GetVotesSingleResponse {
    pub chapter_vote_id: i16,
    pub rating: i16,
}

/// The candidates and ratings behind a list of votes.
pub open spec fn ballots(v: Seq<GetVotesSingleResponse>) -> Seq<(i16, i16)> {
    Seq::new(v.len(), |i: int| (v[i].chapter_vote_id, v[i].rating))
}

/// One line of a leaderboard.
#[derive(Debug)]
pub struct OneChapterVisitInfo {
    pub relative_path: String,
    pub visit_count: i64,
}

impl View for OneChapterVisitInfo {
    type V = (Seq<char>, i64);

    open spec fn view(&self) -> (Seq<char>, i64) {
        (self.relative_path@, self.visit_count)
    }
}

pub type ChapterVisitInfo = Vec<OneChapterVisitInfo>;

/// The values behind a leaderboard.
pub open spec fn info_rows(v: Seq<OneChapterVisitInfo>) -> Seq<(Seq<char>, i64)> {
    Seq::new(v.len(), |i: int| v[i]@)
}

/// Which comments a feed holds.
enum Selector {
    OnPath(String),
    Any,
    Mentioning(i64),
}

/// Whether an optional string holds this text.
fn holds_text(field: &Option<String>, text: &String) -> (r: bool)
    ensures
        r == (text_of(*field) == Some(text@)),
{
    match field {
        Some(t) => *t == *text,
        None => false,
    }
}

/// The id above `last`, if there is one.
fn id_after(last: i64) -> (r: Option<i64>)
    ensures
        match r {
            Some(id) => id == last + 1,
            None => last + 1 > i64::MAX,
        },
{
    if last == 0x7fff_ffff_ffff_ffffi64 {
        None
    } else {
        Some(last + 1)
    }
}

impl Store {
    fn find_chapter_id(&self, id: i32) -> (r: Option<usize>)
        requires
            self.wf(),
        ensures
            match r {
                Some(i) => i < self.chapters.len() && self@.has_chapter_id(id)
                    && self@.chapter_id_index(id) == i,
                None => !self@.has_chapter_id(id),
            },
    {
        let mut i: usize = 0;
        while i < self.chapters.len()
            invariant
                i <= self.chapters.len(),
                self.wf(),
                forall|j: int| 0 <= j < i ==> !chapter_has_id(self@.chapters, id, j),
            decreases self.chapters.len() - i,
        {
            if self.chapters[i].id == id {
                proof {
                    self@.lemma_chapter_id_found(id, i as int);
                }
                return Some(i);
            }
            i += 1;
        }
        None
    }

    fn find_user_id(&self, id: i64) -> (r: Option<usize>)
        requires
            self.wf(),
        ensures
            match r {
                Some(i) => i < self.users.len() && self@.has_user_id(id) && self@.user_id_index(id)
                    == i,
                None => !self@.has_user_id(id),
            },
    {
        let mut i: usize = 0;
        while i < self.users.len()
            invariant
                i <= self.users.len(),
                self.wf(),
                forall|j: int| 0 <= j < i ==> !user_has_id(self@.users, id, j),
            decreases self.users.len() - i,
        {
            if self.users[i].id == id {
                proof {
                    self@.lemma_user_id_found(id, i as int);
                }
                return Some(i);
            }
            i += 1;
        }
        None
    }

    fn find_comment(&self, comment_id: i64) -> (r: Option<usize>)
        requires
            self.wf(),
        ensures
            match r {
                Some(i) => i < self.comments.len() && self@.has_comment(comment_id)
                    && self@.comment_index(comment_id) == i,
                None => !self@.has_comment(comment_id),
            },
    {
        let mut i: usize = 0;
        while i < self.comments.len()
            invariant
                i <= self.comments.len(),
                self.wf(),
                forall|j: int| 0 <= j < i ==> !comment_has_id(self@.comments, comment_id, j),
            decreases self.comments.len() - i,
        {
            if self.comments[i].id == comment_id {
                proof {
                    self@.lemma_comment_found(comment_id, i as int);
                }
                return Some(i);
            }
            i += 1;
        }
        None
    }

    /// The id of the last row of each table that numbers its rows by
    /// counting; 0 for an empty table.
    fn last_chapter_id(&self) -> (r: i32)
        requires
            self.wf(),
        ensures
            r + 1 == self@.next_chapter_id(),
            r >= 0,
    {
        let n = self.chapters.len();
        if n == 0 {
            0
        } else {
            assert(self@.chapters[n - 1] == self.chapters[n - 1]@);
            self.chapters[n - 1].id
        }
    }

    fn last_visit_id(&self) -> (r: i64)
        requires
            self.wf(),
        ensures
            r + 1 == self@.next_visit_id(),
            r >= 0,
    {
        let n = self.visits.len();
        if n == 0 {
            0
        } else {
            self.visits[n - 1].id
        }
    }

    fn last_user_id(&self) -> (r: i64)
        requires
            self.wf(),
        ensures
            r + 1 == self@.next_user_id(),
            r >= 0,
    {
        let n = self.users.len();
        if n == 0 {
            0
        } else {
            assert(self@.users[n - 1] == self.users[n - 1]@);
            self.users[n - 1].id
        }
    }

    fn last_comment_id(&self) -> (r: i64)
        requires
            self.wf(),
        ensures
            r + 1 == self@.next_comment_id(),
            r >= 0,
    {
        let n = self.comments.len();
        if n == 0 {
            0
        } else {
            assert(self@.comments[n - 1] == self.comments[n - 1]@);
            self.comments[n - 1].id
        }
    }

    fn last_mention_id(&self) -> (r: i64)
        requires
            self.wf(),
        ensures
            r + 1 == self@.next_mention_id(),
            r >= 0,
    {
        let n = self.mentions.len();
        if n == 0 {
            0
        } else {
            self.mentions[n - 1].id
        }
    }

    /// The invariant of the store: that of its model.
    pub open spec fn wf(&self) -> bool {
        self@.wf()
    }

    /// A store with no rows.
    pub fn new() -> (r: Store)
        ensures
            r.wf(),
            r@ == State::empty(),
    {
        let r = Store {
            chapters: Vec::new(),
            visits: Vec::new(),
            users: Vec::new(),
            comments: Vec::new(),
            mentions: Vec::new(),
            votes: Vec::new(),
            vote_serial: 0,
        };
        assert(r@.chapters =~= Seq::empty());
        assert(r@.users =~= Seq::empty());
        assert(r@.comments =~= Seq::empty());
        r
    }

    fn find_chapter(&self, path: &String) -> (r: Option<usize>)
        requires
            self.wf(),
        ensures
            match r {
                Some(i) => self@.chapter_at(path@, i as int) && self@.has_chapter(path@)
                    && self@.chapter_index(path@) == i,
                None => !self@.has_chapter(path@),
            },
    {
        let mut i: usize = 0;
        while i < self.chapters.len()
            invariant
                i <= self.chapters.len(),
                self.wf(),
                forall|j: int| 0 <= j < i ==> !self@.chapter_at(path@, j),
            decreases self.chapters.len() - i,
        {
            if self.chapters[i].relative_path == *path {
                proof {
                    self@.lemma_chapter_found(path@, i as int);
                }
                return Some(i);
            }
            i += 1;
        }
        None
    }

    /// Where the chapter with this path stands, after inserting it with a
    /// counter of 0 if it was not there.
    fn place_chapter(&mut self, path: String) -> (r: Result<usize, WTError>)
        requires
            old(self).wf(),
        ensures
            final(self).wf(),
            final(self)@ == old(self)@.with_chapter(path@),
            r is Ok <==> (old(self)@.has_chapter(path@) || !old(self)@.chapters_full()),
            match r {
                Ok(i) => i < final(self).chapters.len() && final(self)@.has_chapter(path@)
                    && final(self)@.chapter_index(path@) == i,
                Err(e) => e == WTError::InternalError(Fault::IdsExhausted),
            },
    {
        proof {
            self@.lemma_with_chapter_wf(path@);
        }
        match self.find_chapter(&path) {
            Some(i) => Ok(i),
            None => {
                let n = self.chapters.len();
                let last = self.last_chapter_id();
                if last == 0x7fff_ffff {
                    return Err(WTError::InternalError(Fault::IdsExhausted));
                }
                let ghost wanted = path@;
                let row = Chapter { id: last + 1, relative_path: path, visit_count: 0 };
                self.chapters.push(row);
                proof {
                    assert(self@.chapters =~= old(self)@.chapters.push(row@));
                    assert(self@ == old(self)@.with_chapter(wanted));
                    assert(self@.chapter_at(wanted, n as int));
                    self@.lemma_chapter_found(wanted, n as int);
                }
                Ok(n)
            },
        }
    }

    /// Records one visit to a chapter at time `now`: the chapter is looked
    /// up or inserted, gets one more visit row, and its counter goes up by
    /// one. Fails, and changes nothing, only if an id that it needs is not
    /// left.
    pub fn count(&mut self, relative_path: &str, now: i64) -> (r: Result<(), WTError>)
        requires
            old(self).wf(),
        ensures
            final(self).wf(),
            final(self)@ == old(self)@.record_visit(relative_path@, now),
            r is Err <==> old(self)@.visit_fault(relative_path@),
            r is Err ==> r == Err::<(), WTError>(WTError::InternalError(Fault::IdsExhausted)),
    {
        proof {
            self@.lemma_record_visit_wf(relative_path@, now);
            self@.lemma_with_chapter_wf(relative_path@);
        }
        let visit_id = match id_after(self.last_visit_id()) {
            Some(id) => id,
            None => {
                return Err(WTError::InternalError(Fault::IdsExhausted));
            },
        };
        let i = match self.place_chapter(relative_path.to_owned()) {
            Ok(i) => i,
            Err(e) => {
                return Err(e);
            },
        };
        let ghost mid = self@;
        let chapter = self.chapters[i].duplicate();
        let visit = Visit { id: visit_id, chapter_id: chapter.id, timestamp: now };
        proof {
            crate::upkeep::lemma_count_push(mid.visits, visit, chapter.id);
        }
        self.visits.push(visit);
        let counted = Chapter {
            id: chapter.id,
            relative_path: chapter.relative_path,
            visit_count: chapter.visit_count + 1,
        };
        self.chapters.set(i, counted);
        proof {
            assert(self@.chapters =~= mid.chapters.update(i as int, counted@));
            assert(self@ == old(self)@.record_visit(relative_path@, now));
        }
        Ok(())
    }

    fn find_token(&self, token: &str) -> (r: Option<usize>)
        requires
            self.wf(),
        ensures
            match r {
                Some(i) => self@.resolve(token@) == Some(i as int) && i < self.users.len()
                    && self@.token_at(token@, i as int),
                None => self@.resolve(token@).is_none(),
            },
    {
        if !is_token(token) {
            return None;
        }
        let wanted = token.to_owned();
        let mut i: usize = 0;
        while i < self.users.len()
            invariant
                i <= self.users.len(),
                self.wf(),
                wanted@ == token@,
                crate::validate::is_token_spec(token@),
                forall|j: int| 0 <= j < i ==> !self@.token_at(token@, j),
            decreases self.users.len() - i,
        {
            if self.users[i].token == wanted {
                proof {
                    self@.lemma_token_found(token@, i as int);
                }
                return Some(i);
            }
            i += 1;
        }
        None
    }

    fn find_name(&self, user_name: &String) -> (r: Option<usize>)
        requires
            self.wf(),
        ensures
            match r {
                Some(i) => self@.name_known(user_name@) && self@.name_index(user_name@) == i && i
                    < self.users.len(),
                None => !self@.name_known(user_name@),
            },
    {
        let mut i: usize = 0;
        while i < self.users.len()
            invariant
                i <= self.users.len(),
                self.wf(),
                forall|j: int| 0 <= j < i ==> !self@.name_at(user_name@, j),
            decreases self.users.len() - i,
        {
            if self.users[i].user_name == *user_name {
                proof {
                    self@.lemma_name_found(user_name@, i as int);
                }
                return Some(i);
            }
            i += 1;
        }
        None
    }

    fn is_name_taken(&self, display_name: &String, user_name: &String) -> (r: bool)
        requires
            self.wf(),
        ensures
            r == self@.name_taken(display_name@, user_name@),
    {
        let mut i: usize = 0;
        while i < self.users.len()
            invariant
                i <= self.users.len(),
                forall|j: int|
                    0 <= j < i ==> !((#[trigger] self@.users[j]).display_name == display_name@
                        || self@.users[j].user_name == user_name@),
            decreases self.users.len() - i,
        {
            if self.users[i].display_name == *display_name || self.users[i].user_name
                == *user_name {
                assert(self@.users[i as int].display_name == display_name@ || self@.users[i as int].user_name
                    == user_name@);
                return true;
            }
            i += 1;
        }
        false
    }

    fn is_token_known(&self, token: &String) -> (r: bool)
        requires
            self.wf(),
        ensures
            r == self@.token_known(token@),
    {
        let mut i: usize = 0;
        while i < self.users.len()
            invariant
                i <= self.users.len(),
                forall|j: int| 0 <= j < i ==> !self@.token_at(token@, j),
            decreases self.users.len() - i,
        {
            if self.users[i].token == *token {
                assert(self@.token_at(token@, i as int));
                return true;
            }
            i += 1;
        }
        false
    }

    fn is_email_taken(&self, email: &String) -> (r: bool)
        requires
            self.wf(),
        ensures
            r == self@.email_taken(email@),
    {
        let mut i: usize = 0;
        while i < self.users.len()
            invariant
                i <= self.users.len(),
                forall|j: int| 0 <= j < i ==> (#[trigger] self@.users[j]).email != Some(email@),
            decreases self.users.len() - i,
        {
            if holds_text(&self.users[i].email, email) {
                assert(self@.users[i as int].email == Some(email@));
                return true;
            }
            i += 1;
        }
        false
    }

    /// Stores a new user under the given token, unless the display name or
    /// the user name is some user's already, or the e-mail address is. The
    /// name is looked at first. Fails, and changes nothing, if the token is
    /// some user's already or no id is left.
    pub fn register(
        &mut self,
        token: String,
        user_name: String,
        display_name: String,
        email: Option<String>,
        current_timestamp: i64,
    ) -> (r: Result<APIResult<RegisterResponse>, WTError>)
        requires
            old(self).wf(),
        ensures
            final(self).wf(),
            final(self)@ == old(self)@.register(
                token@,
                user_name@,
                display_name@,
                text_of(email),
                current_timestamp,
            ),
            match r {
                Ok(APIResult::Success(resp)) => {
                    &&& old(self)@.register_verdict(user_name@, display_name@, text_of(email)).is_none()
                    &&& !old(self)@.register_fault(token@, user_name@, display_name@, text_of(email))
                    &&& resp.token@ == token@
                    &&& resp.user_name@ == user_name@
                },
                Ok(APIResult::Error(code)) => old(self)@.register_verdict(
                    user_name@,
                    display_name@,
                    text_of(email),
                ) == Some(code),
                Ok(APIResult::Forbidden) => false,
                Err(e) => {
                    &&& old(self)@.register_fault(token@, user_name@, display_name@, text_of(email))
                    &&& e == WTError::InternalError(
                        if old(self)@.token_known(token@) {
                            Fault::TokenCollision
                        } else {
                            Fault::IdsExhausted
                        },
                    )
                },
            },
    {
        proof {
            self@.lemma_register_wf(
                token@,
                user_name@,
                display_name@,
                text_of(email),
                current_timestamp,
            );
        }
        if self.is_name_taken(&display_name, &user_name) {
            return Ok(APIResult::Error(ErrorCode::NameDuplicated));
        }
        match &email {
            Some(user_email) => {
                if self.is_email_taken(user_email) {
                    return Ok(APIResult::Error(ErrorCode::EmailDuplicated));
                }
            },
            None => {},
        }
        if self.is_token_known(&token) {
            return Err(WTError::InternalError(Fault::TokenCollision));
        }
        let id = match id_after(self.last_user_id()) {
            Some(id) => id,
            None => {
                return Err(WTError::InternalError(Fault::IdsExhausted));
            },
        };
        let row = User {
            id,
            token: token.clone(),
            email,
            user_name: user_name.clone(),
            display_name,
            disabled: false,
            last_checked_mentions_timestamp: current_timestamp,
        };
        self.users.push(row);
        proof {
            assert(self@.users =~= old(self)@.users.push(row@));
        }
        Ok(APIResult::Success(RegisterResponse { token, user_name }))
    }

    fn other_has_name(&self, token: &String, display_name: &String) -> (r: bool)
        requires
            self.wf(),
        ensures
            r == self@.other_has_name(token@, display_name@),
    {
        let mut i: usize = 0;
        while i < self.users.len()
            invariant
                i <= self.users.len(),
                forall|j: int|
                    0 <= j < i ==> !((#[trigger] self@.users[j]).token != token@
                        && self@.users[j].display_name == display_name@),
            decreases self.users.len() - i,
        {
            if self.users[i].token != *token && self.users[i].display_name == *display_name {
                assert(self@.users[i as int].token != token@ && self@.users[i as int].display_name
                    == display_name@);
                return true;
            }
            i += 1;
        }
        false
    }

    fn other_has_email(&self, token: &String, email: &String) -> (r: bool)
        requires
            self.wf(),
        ensures
            r == self@.other_has_email(token@, email@),
    {
        let mut i: usize = 0;
        while i < self.users.len()
            invariant
                i <= self.users.len(),
                forall|j: int|
                    0 <= j < i ==> !((#[trigger] self@.users[j]).token != token@
                        && self@.users[j].email == Some(email@)),
            decreases self.users.len() - i,
        {
            if self.users[i].token != *token && holds_text(&self.users[i].email, email) {
                assert(self@.users[i as int].token != token@ && self@.users[i as int].email == Some(
                    email@,
                ));
                return true;
            }
            i += 1;
        }
        false
    }

    /// Gives the user with this token a new display name and e-mail
    /// address, unless another user has the name, or the address. The
    /// caller's own row does not count, so the old values may be sent
    /// again. A token that resolves to nobody is refused.
    pub fn update_profile(&mut self, token: String, display_name: String, email: Option<String>) -> (r:
        Result<APIResult<Empty>, WTError>)
        requires
            old(self).wf(),
        ensures
            final(self).wf(),
            final(self)@ == old(self)@.update_profile(token@, display_name@, text_of(email)),
            match r {
                Ok(v) => v.verdict() == old(self)@.update_verdict(
                    token@,
                    display_name@,
                    text_of(email),
                ),
                Err(_) => false,
            },
    {
        proof {
            self@.lemma_update_profile_wf(token@, display_name@, text_of(email));
        }
        let i = match self.find_token(token.as_str()) {
            Some(i) => i,
            None => {
                return Ok(APIResult::Forbidden);
            },
        };
        if self.other_has_name(&token, &display_name) {
            return Ok(APIResult::Error(ErrorCode::NameDuplicated));
        }
        match &email {
            Some(user_email) => {
                if self.other_has_email(&token, user_email) {
                    return Ok(APIResult::Error(ErrorCode::EmailDuplicated));
                }
            },
            None => {},
        }
        let row = User {
            id: self.users[i].id,
            token: self.users[i].token.clone(),
            email,
            user_name: self.users[i].user_name.clone(),
            display_name,
            disabled: self.users[i].disabled,
            last_checked_mentions_timestamp: self.users[i].last_checked_mentions_timestamp,
        };
        self.users.set(i, row);
        proof {
            assert(self@.users =~= old(self)@.users.update(i as int, row@));
        }
        Ok(APIResult::Success(Empty {}))
    }

    /// Whether the comment with this id is there and not deleted.
    fn is_live(&self, comment_id: i64) -> (r: bool)
        requires
            self.wf(),
        ensures
            r == self@.live_comment(comment_id),
    {
        match self.find_comment(comment_id) {
            Some(i) => !self.comments[i].deleted,
            None => false,
        }
    }

    fn count_unseen(&self, user_id: i64, since: i64) -> (r: i64)
        requires
            self.wf(),
        ensures
            r == self@.unseen_count(user_id, since),
    {
        let mut n: i64 = 0;
        let mut i: usize = 0;
        let ghost pred = self@.unseen(user_id, since);
        assert(self.mentions@.take(0).filter(pred).len() == 0) by {
            reveal(Seq::filter);
            assert(self.mentions@.take(0) =~= Seq::empty());
        }
        while i < self.mentions.len()
            invariant
                i <= self.mentions.len(),
                self.wf(),
                pred == self@.unseen(user_id, since),
                n == self.mentions@.take(i as int).filter(pred).len(),
                n <= i,
            decreases self.mentions.len() - i,
        {
            let m = self.mentions[i];
            proof {
                assert(self.mentions@.take(i + 1) =~= self.mentions@.take(i as int).push(m));
                self.mentions@.take(i as int).lemma_filter_push(m, pred);
            }
            if m.mentioned_user_id == user_id && m.timestamp >= since && self.is_live(
                m.from_comment_id,
            ) {
                n += 1;
            }
            i += 1;
        }
        assert(self.mentions@.take(i as int) =~= self.mentions@);
        n
    }

    fn touch(&mut self, i: usize, now: i64)
        requires
            old(self).wf(),
            i < old(self)@.users.len(),
        ensures
            final(self)@ == old(self)@.touch(i as int, now),
    {
        let row = User {
            id: self.users[i].id,
            token: self.users[i].token.clone(),
            email: duplicate_text(&self.users[i].email),
            user_name: self.users[i].user_name.clone(),
            display_name: self.users[i].display_name.clone(),
            disabled: self.users[i].disabled,
            last_checked_mentions_timestamp: now,
        };
        self.users.set(i, row);
        proof {
            assert(self@.users =~= old(self)@.users.update(i as int, row@));
        }
    }

    /// Starts a session at time `now`: reports the profile of the user with
    /// this token and the number of mentions, on comments that are not
    /// deleted, since the user last looked; from `now` on the user has
    /// looked. None, and no change, if the token resolves to nobody.
    pub fn init(&mut self, token: &str, now: i64) -> (r: Option<InitResult>)
        requires
            old(self).wf(),
        ensures
            final(self).wf(),
            final(self)@ == old(self)@.checked(token@, now),
            match r {
                Some(v) => Some(v@) == old(self)@.init_row(token@),
                None => old(self)@.init_row(token@).is_none(),
            },
    {
        proof {
            self@.lemma_checked_wf(token@, now);
        }
        match self.find_token(token) {
            Some(i) => {
                let user = self.users[i].duplicate();
                let mentions = self.count_unseen(user.id, user.last_checked_mentions_timestamp);
                self.touch(i, now);
                Some(
                    InitResult {
                        user_name: user.user_name,
                        display_name: user.display_name,
                        email: user.email,
                        mentions,
                    },
                )
            },
            None => None,
        }
    }

    fn resolve_names(&self, mentioned: &Vec<String>) -> (ids: Vec<i64>)
        requires
            self.wf(),
        ensures
            ids@ == self@.resolved_ids(texts(mentioned@)),
    {
        let mut ids: Vec<i64> = Vec::new();
        let mut i: usize = 0;
        let ghost names = texts(mentioned@);
        let ghost f = self@.name_resolver();
        assert(names.take(0) =~= Seq::empty());
        while i < mentioned.len()
            invariant
                i <= mentioned.len(),
                self.wf(),
                names == texts(mentioned@),
                f == self@.name_resolver(),
                ids@ == names.take(i as int).filter_map(f),
            decreases mentioned.len() - i,
        {
            proof {
                names.lemma_filter_map_take_succ(f, i as int);
            }
            match self.find_name(&mentioned[i]) {
                Some(u) => {
                    ids.push(self.users[u].id);
                },
                None => {},
            }
            i += 1;
        }
        assert(names.take(i as int) =~= names);
        ids
    }

    /// Stores a comment by the user with this token on the chapter with
    /// this path, which is inserted if it is missing, and one mention row
    /// for each of the given user names that some user has. Hands back
    /// false, and changes nothing, if the token resolves to nobody. Fails,
    /// and changes nothing, only if an id that it needs is not left.
    pub fn send(
        &mut self,
        token: String,
        relative_path: String,
        content: String,
        current_timestamp: i64,
        mentioned: Vec<String>,
    ) -> (r: Result<bool, WTError>)
        requires
            old(self).wf(),
        ensures
            final(self).wf(),
            final(self)@ == old(self)@.send(
                token@,
                relative_path@,
                content@,
                current_timestamp,
                texts(mentioned@),
            ),
            match r {
                Ok(stored) => stored == old(self)@.resolve(token@).is_some() && !old(
                    self,
                )@.send_fault(token@, relative_path@, texts(mentioned@)),
                Err(e) => old(self)@.send_fault(token@, relative_path@, texts(mentioned@)) && e
                    == WTError::InternalError(Fault::IdsExhausted),
            },
    {
        let ghost names = texts(mentioned@);
        proof {
            self@.lemma_send_wf(token@, relative_path@, content@, current_timestamp, names);
            self@.lemma_with_chapter_wf(relative_path@);
        }
        let u = match self.find_token(token.as_str()) {
            Some(u) => u,
            None => {
                return Ok(false);
            },
        };
        let user_id = self.users[u].id;
        let comment_id = match id_after(self.last_comment_id()) {
            Some(id) => id,
            None => {
                return Err(WTError::InternalError(Fault::IdsExhausted));
            },
        };
        let last_mention = self.last_mention_id();
        if mentioned.len() as u64 > (0x7fff_ffff_ffff_ffffi64 - last_mention) as u64 {
            return Err(WTError::InternalError(Fault::IdsExhausted));
        }
        let chapter_id = match self.place_chapter(relative_path) {
            Ok(i) => self.chapters[i].id,
            Err(e) => {
                return Err(e);
            },
        };
        let ghost mid = self@;
        let ids = self.resolve_names(&mentioned);
        proof {
            mid.lemma_resolved_ids_len(names);
            assert(mid.token_at(token@, u as int));
            mid.lemma_token_found(token@, u as int);
            assert(mid.chapter_at(relative_path@, mid.chapter_index(relative_path@)));
        }
        let row = Comment {
            id: comment_id,
            chapter_id,
            user_id,
            content,
            deleted: false,
            create_timestamp: current_timestamp,
            update_timestamp: current_timestamp,
        };
        self.comments.push(row);
        proof {
            assert(self@.comments =~= mid.comments.push(row@));
        }
        let ghost fresh = mid.new_mentions(comment_id, names, current_timestamp);
        let mut k: usize = 0;
        while k < ids.len()
            invariant
                k <= ids.len(),
                ids@ == mid.resolved_ids(names),
                fresh == mid.new_mentions(comment_id, names, current_timestamp),
                last_mention + 1 == mid.next_mention_id(),
                last_mention >= 0,
                last_mention + ids.len() <= i64::MAX,
                self.mentions@ =~= mid.mentions + fresh.take(k as int),
                self@.chapters == mid.chapters,
                self@.visits == mid.visits,
                self@.users == mid.users,
                self@.comments == mid.comments.push(row@),
                self@.votes == mid.votes,
                self@.vote_serial == mid.vote_serial,
            decreases ids.len() - k,
        {
            let m = Mention {
                id: last_mention + 1 + (k as i64),
                from_comment_id: comment_id,
                mentioned_user_id: ids[k],
                timestamp: current_timestamp,
            };
            assert(m == fresh[k as int]);
            assert(fresh.take(k + 1) =~= fresh.take(k as int).push(m));
            self.mentions.push(m);
            k += 1;
        }
        proof {
            assert(fresh.take(k as int) =~= fresh);
            assert(self@ == old(self)@.send(
                token@,
                relative_path@,
                content@,
                current_timestamp,
                names,
            ));
        }
        Ok(true)
    }

    /// Flags a comment as deleted if it is there, not yet deleted, and
    /// written by the user with this token, and says whether it did. The
    /// comment is then gone from the comments of its chapter, and the
    /// others stay as they were.
    pub fn delete(&mut self, comment_id: i64, token: String) -> (r: Result<bool, WTError>)
        requires
            old(self).wf(),
        ensures
            final(self).wf(),
            final(self)@ == old(self)@.delete(comment_id, token@),
            r == Ok::<bool, WTError>(old(self)@.delete_ok(comment_id, token@)),
            old(self)@.delete_ok(comment_id, token@) ==> forall|path: Seq<char>|
                #[trigger] final(self)@.chapter_comments(path) == old(self)@.chapter_comments(
                    path,
                ).filter(other_than(comment_id)),
    {
        proof {
            self@.lemma_delete_wf(comment_id, token@);
            if self@.delete_ok(comment_id, token@) {
                assert forall|path: Seq<char>|
                    #[trigger] self@.delete(comment_id, token@).chapter_comments(path)
                        == self@.chapter_comments(path).filter(other_than(comment_id)) by {
                    law_delete_once(self@, comment_id, token@, path);
                }
            }
        }
        let user_id = match self.find_token(token.as_str()) {
            Some(u) => self.users[u].id,
            None => {
                return Ok(false);
            },
        };
        let i: usize = match self.find_comment(comment_id) {
            Some(i) => i,
            None => {
                return Ok(false);
            },
        };
        if self.comments[i].deleted || self.comments[i].user_id != user_id {
            return Ok(false);
        }
        let row = Comment {
            id: self.comments[i].id,
            chapter_id: self.comments[i].chapter_id,
            user_id: self.comments[i].user_id,
            content: self.comments[i].content.clone(),
            deleted: true,
            create_timestamp: self.comments[i].create_timestamp,
            update_timestamp: self.comments[i].update_timestamp,
        };
        self.comments.set(i, row);
        proof {
            assert(self@.comments =~= old(self)@.comments.update(i as int, row@));
        }
        Ok(true)
    }

    spec fn pick(&self, sel: Selector) -> spec_fn(CommentRow) -> bool {
        match sel {
            Selector::OnPath(path) => self@.on_path(path@),
            Selector::Any => State::any_comment(),
            Selector::Mentioning(user_id) => self@.mentioning(user_id),
        }
    }

    fn is_mentioned_in(&self, comment_id: i64, user_id: i64) -> (r: bool)
        requires
            self.wf(),
        ensures
            r == (exists|k: int| self@.mention_at(comment_id, user_id, k)),
    {
        let mut k: usize = 0;
        while k < self.mentions.len()
            invariant
                k <= self.mentions.len(),
                forall|j: int| 0 <= j < k ==> !self@.mention_at(comment_id, user_id, j),
            decreases self.mentions.len() - k,
        {
            if self.mentions[k].from_comment_id == comment_id && self.mentions[k].mentioned_user_id
                == user_id {
                assert(self@.mention_at(comment_id, user_id, k as int));
                return true;
            }
            k += 1;
        }
        false
    }

    /// Where the chapter and the author of the comment at `i` stand, if
    /// the comment is shown and selected.
    fn selected(&self, sel: &Selector, i: usize) -> (r: Option<(usize, usize)>)
        requires
            self.wf(),
            i < self.comments.len(),
        ensures
            r.is_some() == (self@.shown(self@.comments[i as int]) && (self.pick(*sel))(
                self@.comments[i as int],
            )),
            match r {
                Some((chapter, author)) => {
                    &&& chapter < self.chapters.len()
                    &&& author < self.users.len()
                    &&& chapter == self@.chapter_id_index(self@.comments[i as int].chapter_id)
                    &&& author == self@.user_id_index(self@.comments[i as int].user_id)
                },
                None => true,
            },
    {
        let c = &self.comments[i];
        if c.deleted {
            return None;
        }
        let chapter = match self.find_chapter_id(c.chapter_id) {
            Some(k) => k,
            None => {
                return None;
            },
        };
        let author = match self.find_user_id(c.user_id) {
            Some(k) => k,
            None => {
                return None;
            },
        };
        let kept = match sel {
            Selector::OnPath(path) => self.chapters[chapter].relative_path == *path,
            Selector::Any => true,
            Selector::Mentioning(user_id) => self.is_mentioned_in(c.id, *user_id),
        };
        if kept {
            Some((chapter, author))
        } else {
            None
        }
    }

    /// The newest `limit` comments that are shown and selected, newest
    /// first.
    fn collect(&self, sel: &Selector, limit: usize) -> (out: Vec<SingleCommentQueryResult>)
        requires
            self.wf(),
        ensures
            feed_rows(out@) == first_items(
                self@.feed(self.pick(*sel), self@.comments.len() as int),
                limit as int,
            ),
    {
        let mut out: Vec<SingleCommentQueryResult> = Vec::new();
        let mut i: usize = self.comments.len();
        let ghost keep = self.pick(*sel);
        let ghost all = self@.feed(keep, self@.comments.len() as int);
        assert(feed_rows(out@) + self@.feed(keep, i as int) =~= all);
        while i > 0 && out.len() < limit
            invariant
                i <= self.comments.len(),
                self.wf(),
                keep == self.pick(*sel),
                all == self@.feed(keep, self@.comments.len() as int),
                all =~= feed_rows(out@) + self@.feed(keep, i as int),
                out.len() <= limit,
            decreases i,
        {
            i -= 1;
            if let Some((chapter, author)) = self.selected(sel, i) {
                let c = &self.comments[i];
                let row = SingleCommentQueryResult {
                    relative_path: self.chapters[chapter].relative_path.clone(),
                    comment: c.duplicate(),
                    user: self.users[author].duplicate(),
                };
                assert(row@ == self@.joined(self@.comments[i as int]));
                let ghost before = feed_rows(out@);
                out.push(row);
                assert(feed_rows(out@) =~= before.push(row@));
                assert(self@.feed(keep, i + 1) =~= seq![row@] + self@.feed(keep, i as int));
                assert(all =~= feed_rows(out@) + self@.feed(keep, i as int));
            } else {
                assert(self@.feed(keep, i + 1) =~= self@.feed(keep, i as int));
            }
        }
        proof {
            if i == 0 {
                assert(self@.feed(keep, 0) =~= Seq::empty());
                assert(all =~= feed_rows(out@));
            } else {
                assert(feed_rows(out@) =~= all.subrange(0, limit as int));
            }
        }
        out
    }

    /// The comments on the chapter with this path that are not deleted,
    /// each with its author, the newest first.
    pub fn get_chapter_comments(&self, relative_path: String) -> (r: Result<
        Vec<SingleCommentQueryResult>,
        WTError,
    >)
        requires
            self.wf(),
        ensures
            match r {
                Ok(rows) => feed_rows(rows@) == self@.chapter_comments(relative_path@),
                Err(_) => false,
            },
    {
        proof {
            self@.lemma_feed_len(self@.on_path(relative_path@), self@.comments.len() as int);
        }
        Ok(self.collect(&Selector::OnPath(relative_path), self.comments.len()))
    }

    /// The 50 newest comments that are not deleted, each with its chapter's
    /// path and its author, the newest first.
    pub fn get_recent(&self) -> (r: Result<Vec<SingleCommentQueryResult>, WTError>)
        requires
            self.wf(),
        ensures
            match r {
                Ok(rows) => feed_rows(rows@) == self@.recent_comments(),
                Err(_) => false,
            },
    {
        Ok(self.collect(&Selector::Any, 50))
    }

    /// The 50 newest comments that are not deleted and mention the user
    /// with this token, the newest first; from `current_timestamp` on the
    /// user has looked at their mentions. No rows, and no change, if the
    /// token resolves to nobody.
    pub fn get_recent_mentioned(&mut self, token: String, current_timestamp: i64) -> (r: Result<
        Vec<SingleCommentQueryResult>,
        WTError,
    >)
        requires
            old(self).wf(),
        ensures
            final(self).wf(),
            final(self)@ == old(self)@.checked(token@, current_timestamp),
            match r {
                Ok(rows) => feed_rows(rows@) == final(self)@.recent_mentioned(token@),
                Err(_) => false,
            },
    {
        proof {
            self@.lemma_checked_wf(token@, current_timestamp);
        }
        match self.find_token(token.as_str()) {
            Some(i) => {
                let user_id = self.users[i].id;
                self.touch(i, current_timestamp);
                proof {
                    assert(self@.token_at(token@, i as int));
                    self@.lemma_token_found(token@, i as int);
                }
                Ok(self.collect(&Selector::Mentioning(user_id), 50))
            },
            None => {
                let rows: Vec<SingleCommentQueryResult> = Vec::new();
                assert(feed_rows(rows@) =~= Seq::empty());
                Ok(rows)
            },
        }
    }

    fn find_vote(&self, user_id: i64, chapter_vote_id: i16) -> (r: Option<usize>)
        requires
            self.wf(),
        ensures
            match r {
                Some(i) => self@.has_vote(user_id, chapter_vote_id) && self@.vote_index(
                    user_id,
                    chapter_vote_id,
                ) == i && i < self.votes.len(),
                None => !self@.has_vote(user_id, chapter_vote_id),
            },
    {
        let mut i: usize = 0;
        while i < self.votes.len()
            invariant
                i <= self.votes.len(),
                self.wf(),
                forall|j: int| 0 <= j < i ==> !self@.vote_at(user_id, chapter_vote_id, j),
            decreases self.votes.len() - i,
        {
            if self.votes[i].user_id == user_id && self.votes[i].chapter_vote_id
                == chapter_vote_id {
                proof {
                    self@.lemma_vote_found(user_id, chapter_vote_id, i as int);
                }
                return Some(i);
            }
            i += 1;
        }
        None
    }

    /// Sets the rating that the user with this token gives a candidate:
    /// rating 0 removes the user's row for the candidate, a rating from 1
    /// to 5 is written into that row, or into a new one. Says whether a
    /// row was inserted, updated or removed; false, and no change, if the
    /// token resolves to nobody, the rating is outside 0 to 5, or there
    /// was no row to remove. Fails, and changes nothing, only if a new row
    /// cannot be numbered.
    pub fn vote(&mut self, token: String, chapter_vote_id: i16, rating: i16) -> (r: Result<
        bool,
        WTError,
    >)
        requires
            old(self).wf(),
        ensures
            final(self).wf(),
            final(self)@ == old(self)@.vote(token@, chapter_vote_id, rating),
            match r {
                Ok(changed) => changed == old(self)@.vote_ok(token@, chapter_vote_id, rating)
                    && !old(self)@.vote_fault(token@, chapter_vote_id, rating),
                Err(e) => old(self)@.vote_fault(token@, chapter_vote_id, rating) && e
                    == WTError::InternalError(Fault::IdsExhausted),
            },
    {
        proof {
            self@.lemma_vote_wf(token@, chapter_vote_id, rating);
        }
        let user_id = match self.find_token(token.as_str()) {
            Some(u) => self.users[u].id,
            None => {
                return Ok(false);
            },
        };
        if rating < 0 || rating > 5 {
            return Ok(false);
        }
        match self.find_vote(user_id, chapter_vote_id) {
            Some(i) => {
                if rating == 0 {
                    self.votes.remove(i);
                } else {
                    let row = WTCup2020Vote {
                        id: self.votes[i].id,
                        user_id,
                        chapter_vote_id,
                        rating,
                    };
                    assert(self@.vote_at(user_id, chapter_vote_id, i as int));
                    self.votes.set(i, row);
                }
                Ok(true)
            },
            None => {
                if rating == 0 {
                    return Ok(false);
                }
                if self.vote_serial == 0x7fff_ffff_ffff_ffffi64 {
                    return Err(WTError::InternalError(Fault::IdsExhausted));
                }
                self.vote_serial = self.vote_serial + 1;
                self.votes.push(
                    WTCup2020Vote { id: self.vote_serial, user_id, chapter_vote_id, rating },
                );
                Ok(true)
            },
        }
    }

    /// The votes of the user with this token, in the order of their rows;
    /// none if the token resolves to nobody.
    pub fn get_votes(&self, token: String) -> (r: Result<Vec<GetVotesSingleResponse>, WTError>)
        requires
            self.wf(),
        ensures
            match r {
                Ok(rows) => {
                    &&& ballots(rows@) == self@.votes_of(token@)
                    &&& forall|j: int|
                        0 <= j < rows@.len() ==> 1 <= (#[trigger] rows@[j]).rating <= 5
                    &&& forall|j: int, k: int|
                        0 <= j < k < rows@.len() ==> (#[trigger] rows@[j]).chapter_vote_id != (
                        #[trigger] rows@[k]).chapter_vote_id
                },
                Err(_) => false,
            },
    {
        proof {
            crate::laws::law_votes_shown(self@, token@);
        }
        let mut out: Vec<GetVotesSingleResponse> = Vec::new();
        let user_id = match self.find_token(token.as_str()) {
            Some(u) => self.users[u].id,
            None => {
                assert(ballots(out@) =~= Seq::empty());
                return Ok(out);
            },
        };
        let ghost pred = State::vote_by(user_id);
        let ghost f = State::ballot();
        let mut i: usize = 0;
        proof {
            reveal(Seq::filter);
            assert(self.votes@.take(0) =~= Seq::empty());
            assert(ballots(out@) =~= self.votes@.take(0).filter(pred).map_values(f));
        }
        while i < self.votes.len()
            invariant
                i <= self.votes.len(),
                pred == State::vote_by(user_id),
                f == State::ballot(),
                ballots(out@) =~= self.votes@.take(i as int).filter(pred).map_values(f),
            decreases self.votes.len() - i,
        {
            let v = self.votes[i];
            proof {
                assert(self.votes@.take(i + 1) =~= self.votes@.take(i as int).push(v));
                self.votes@.take(i as int).lemma_filter_push(v, pred);
            }
            if v.user_id == user_id {
                out.push(
                    GetVotesSingleResponse { chapter_vote_id: v.chapter_vote_id, rating: v.rating },
                );
                assert(self.votes@.take(i as int).filter(pred).push(v).map_values(f)
                    =~= self.votes@.take(i as int).filter(pred).map_values(f).push(f(v)));
            }
            i += 1;
        }
        proof {
            assert(self.votes@.take(i as int) =~= self.votes@);
            let shown = self@.votes_of(token@);
            assert(ballots(out@) == shown);
            assert forall|j: int| 0 <= j < out@.len() implies 1 <= (#[trigger] out@[j]).rating
                <= 5 by {
                assert(shown[j].1 == out@[j].rating);
            }
            assert forall|j: int, k: int| 0 <= j < k < out@.len() implies (
            #[trigger] out@[j]).chapter_vote_id != (#[trigger] out@[k]).chapter_vote_id by {
                assert(shown[j].0 == out@[j].chapter_vote_id);
                assert(shown[k].0 == out@[k].chapter_vote_id);
            }
        }
        Ok(out)
    }

    /// Whether a key names a chapter of this store.
    spec fn names_chapter(&self, k: (i64, i32)) -> bool {
        self@.has_chapter_id(k.1)
    }

    fn chapter_keys(&self) -> (keys: Vec<(i64, i32)>)
        requires
            self.wf(),
        ensures
            keys@ == self@.all_keys(),
            forall|j: int| 0 <= j < keys@.len() ==> self.names_chapter(#[trigger] keys@[j]),
    {
        let mut keys: Vec<(i64, i32)> = Vec::new();
        let mut i: usize = 0;
        while i < self.chapters.len()
            invariant
                i <= self.chapters.len(),
                self.wf(),
                keys@ =~= self@.all_keys().take(i as int),
                forall|j: int| 0 <= j < keys@.len() ==> self.names_chapter(#[trigger] keys@[j]),
            decreases self.chapters.len() - i,
        {
            assert(self@.chapter_id_at(self.chapters[i as int].id, i as int));
            keys.push((self.chapters[i].visit_count, self.chapters[i].id));
            i += 1;
        }
        keys
    }

    fn count_recent(&self, chapter_id: i32, now: i64, window: i64) -> (n: i64)
        requires
            self.wf(),
        ensures
            n == self@.recent_count(chapter_id, now - window),
    {
        let mut n: i64 = 0;
        let mut j: usize = 0;
        let ghost pred = visit_since(chapter_id, now - window);
        proof {
            reveal(Seq::filter);
            assert(self.visits@.take(0) =~= Seq::empty());
        }
        while j < self.visits.len()
            invariant
                j <= self.visits.len(),
                self.wf(),
                pred == visit_since(chapter_id, now - window),
                n == self.visits@.take(j as int).filter(pred).len(),
                n <= j,
            decreases self.visits.len() - j,
        {
            let v = self.visits[j];
            proof {
                assert(self.visits@.take(j + 1) =~= self.visits@.take(j as int).push(v));
                self.visits@.take(j as int).lemma_filter_push(v, pred);
            }
            if v.chapter_id == chapter_id && (v.timestamp as i128) > (now as i128) - (
            window as i128) {
                n += 1;
            }
            j += 1;
        }
        assert(self.visits@.take(j as int) =~= self.visits@);
        n
    }

    fn recent_keys(&self, now: i64, window: i64) -> (keys: Vec<(i64, i32)>)
        requires
            self.wf(),
        ensures
            keys@ == self@.recent_keys(now - window),
            forall|j: int| 0 <= j < keys@.len() ==> self.names_chapter(#[trigger] keys@[j]),
    {
        let mut keys: Vec<(i64, i32)> = Vec::new();
        let mut i: usize = 0;
        let ghost all = self@.chapters.map_values(self@.recent_key(now - window));
        let ghost pred = State::visited();
        proof {
            reveal(Seq::filter);
            assert(all.take(0) =~= Seq::empty());
        }
        while i < self.chapters.len()
            invariant
                i <= self.chapters.len(),
                self.wf(),
                all == self@.chapters.map_values(self@.recent_key(now - window)),
                pred == State::visited(),
                keys@ == all.take(i as int).filter(pred),
                forall|j: int| 0 <= j < keys@.len() ==> self.names_chapter(#[trigger] keys@[j]),
            decreases self.chapters.len() - i,
        {
            let id = self.chapters[i].id;
            let n = self.count_recent(id, now, window);
            proof {
                assert(self@.chapter_id_at(id, i as int));
                assert(all.take(i + 1) =~= all.take(i as int).push(all[i as int]));
                all.take(i as int).lemma_filter_push(all[i as int], pred);
                assert(all[i as int] == (n, id));
            }
            if n > 0 {
                keys.push((n, id));
            }
            i += 1;
        }
        assert(all.take(i as int) =~= all);
        keys
    }

    fn infos_of(&self, keys: &Vec<(i64, i32)>) -> (out: Vec<OneChapterVisitInfo>)
        requires
            self.wf(),
            forall|j: int| 0 <= j < keys@.len() ==> self.names_chapter(#[trigger] keys@[j]),
        ensures
            info_rows(out@) == keys@.map_values(self@.info_of()),
    {
        let mut out: Vec<OneChapterVisitInfo> = Vec::new();
        let mut i: usize = 0;
        while i < keys.len()
            invariant
                i <= keys.len(),
                self.wf(),
                forall|j: int| 0 <= j < keys@.len() ==> self.names_chapter(#[trigger] keys@[j]),
                info_rows(out@) =~= keys@.map_values(self@.info_of()).take(i as int),
            decreases keys.len() - i,
        {
            let k = keys[i];
            assert(self.names_chapter(keys@[i as int]));
            let ghost before = info_rows(out@);
            let ghost all = keys@.map_values(self@.info_of());
            match self.find_chapter_id(k.1) {
                Some(chapter) => {
                    let row = OneChapterVisitInfo {
                        relative_path: self.chapters[chapter].relative_path.clone(),
                        visit_count: k.0,
                    };
                    assert(row@ == all[i as int]);
                    out.push(row);
                },
                None => {
                    assert(false);
                },
            }
            assert(info_rows(out@) =~= before.push(all[i as int]));
            assert(all.take(i + 1) =~= all.take(i as int).push(all[i as int]));
            i += 1;
        }
        out
    }

    /// A page of ranked keys, each of which names a chapter.
    fn page_of_ranking(&self, keys: &Vec<(i64, i32)>, page: i32) -> (out: Vec<(i64, i32)>)
        requires
            self.wf(),
            forall|j: int| 0 <= j < keys@.len() ==> self.names_chapter(#[trigger] keys@[j]),
        ensures
            out@ == page_of(ranked(keys@), page as int),
            forall|j: int| 0 <= j < out@.len() ==> self.names_chapter(#[trigger] out@[j]),
    {
        let sorted = rank_keys(keys);
        let out = page_keys(&sorted, page);
        proof {
            lemma_ranked(keys@);
            assert forall|j: int| 0 <= j < out@.len() implies self.names_chapter(
                #[trigger] out@[j],
            ) by {
                let offset = (page - 1) * 50;
                assert(out@[j] == sorted@[offset + j]);
                assert(keys@.contains(sorted@[offset + j]));
            }
        }
        out
    }

    /// Page `page` of the chapters ranked by their visit counters, highest
    /// first, equal counters by id. Pages hold 50 chapters and count from
    /// 1; a page below 1 is an error.
    pub fn list_chapters(&self, page: i32) -> (r: Result<ChapterVisitInfo, WTError>)
        requires
            self.wf(),
        ensures
            match r {
                Ok(rows) => page >= 1 && info_rows(rows@) == self@.list_chapters(page as int),
                Err(e) => page < 1 && e == WTError::InternalError(Fault::BadPage),
            },
    {
        if page < 1 {
            return Err(WTError::InternalError(Fault::BadPage));
        }
        let keys = self.chapter_keys();
        let shown = self.page_of_ranking(&keys, page);
        Ok(self.infos_of(&shown))
    }

    /// Page `page` of the chapters that were visited within the window
    /// that ends at `now`, ranked by their visits within it, most first,
    /// equal numbers by id. Pages as in [`Store::list_chapters`].
    pub fn list_recent_chapters(&self, page: i32, time_frame: TimeFrame, now: i64) -> (r: Result<
        ChapterVisitInfo,
        WTError,
    >)
        requires
            self.wf(),
        ensures
            match r {
                Ok(rows) => page >= 1 && info_rows(rows@) == self@.list_recent_chapters(
                    page as int,
                    now - time_frame.milliseconds(),
                ),
                Err(e) => page < 1 && e == WTError::InternalError(Fault::BadPage),
            },
    {
        if page < 1 {
            return Err(WTError::InternalError(Fault::BadPage));
        }
        let keys = self.recent_keys(now, time_frame.get_milliseconds());
        let shown = self.page_of_ranking(&keys, page);
        Ok(self.infos_of(&shown))
    }

    /// All chapters with their counters, in the order of their ids.
    pub fn list_all_chapters(&self) -> (rows: ChapterVisitInfo)
        requires
            self.wf(),
        ensures
            info_rows(rows@) == self@.list_all_chapters(),
    {
        let mut out: Vec<OneChapterVisitInfo> = Vec::new();
        let mut i: usize = 0;
        while i < self.chapters.len()
            invariant
                i <= self.chapters.len(),
                info_rows(out@) =~= self@.list_all_chapters().take(i as int),
            decreases self.chapters.len() - i,
        {
            let row = OneChapterVisitInfo {
                relative_path: self.chapters[i].relative_path.clone(),
                visit_count: self.chapters[i].visit_count,
            };
            let ghost before = info_rows(out@);
            let ghost all = self@.list_all_chapters();
            assert(row@ == all[i as int]);
            out.push(row);
            assert(info_rows(out@) =~= before.push(row@));
            assert(all.take(i + 1) =~= all.take(i as int).push(all[i as int]));
            i += 1;
        }
        out
    }

    /// A copy of all rows, to be kept in storage. What comes back can be
    /// restored.
    pub fn tables(&self) -> (t: Tables)
        requires
            self.wf(),
        ensures
            t@.wf(),
            t@.chapters == self@.chapters,
            t@.visits == self@.visits,
            t@.users == self@.users,
            t@.comments == self@.comments,
            t@.mentions == self@.mentions,
            t@.votes == self@.votes,
    {
        let mut chapters: Vec<Chapter> = Vec::new();
        let mut i: usize = 0;
        while i < self.chapters.len()
            invariant
                i <= self.chapters.len(),
                chapter_rows(chapters@) =~= chapter_rows(self.chapters@).take(i as int),
            decreases self.chapters.len() - i,
        {
            let ghost before = chapter_rows(chapters@);
            chapters.push(self.chapters[i].duplicate());
            assert(chapter_rows(chapters@) =~= before.push(self.chapters[i as int]@));
            i += 1;
        }
        let mut users: Vec<User> = Vec::new();
        i = 0;
        while i < self.users.len()
            invariant
                i <= self.users.len(),
                user_rows(users@) =~= user_rows(self.users@).take(i as int),
            decreases self.users.len() - i,
        {
            let ghost before = user_rows(users@);
            users.push(self.users[i].duplicate());
            assert(user_rows(users@) =~= before.push(self.users[i as int]@));
            i += 1;
        }
        let mut comments: Vec<Comment> = Vec::new();
        i = 0;
        while i < self.comments.len()
            invariant
                i <= self.comments.len(),
                comment_rows(comments@) =~= comment_rows(self.comments@).take(i as int),
            decreases self.comments.len() - i,
        {
            let ghost before = comment_rows(comments@);
            comments.push(self.comments[i].duplicate());
            assert(comment_rows(comments@) =~= before.push(self.comments[i as int]@));
            i += 1;
        }
        let mut visits: Vec<Visit> = Vec::new();
        i = 0;
        while i < self.visits.len()
            invariant
                i <= self.visits.len(),
                visits@ =~= self.visits@.take(i as int),
            decreases self.visits.len() - i,
        {
            visits.push(self.visits[i]);
            i += 1;
        }
        let mut mentions: Vec<Mention> = Vec::new();
        i = 0;
        while i < self.mentions.len()
            invariant
                i <= self.mentions.len(),
                mentions@ =~= self.mentions@.take(i as int),
            decreases self.mentions.len() - i,
        {
            mentions.push(self.mentions[i]);
            i += 1;
        }
        let mut votes: Vec<WTCup2020Vote> = Vec::new();
        i = 0;
        while i < self.votes.len()
            invariant
                i <= self.votes.len(),
                votes@ =~= self.votes@.take(i as int),
            decreases self.votes.len() - i,
        {
            votes.push(self.votes[i]);
            i += 1;
        }
        let t = Tables { chapters, visits, users, comments, mentions, votes };
        proof {
            assert(t@.chapters =~= self@.chapters);
            assert(t@.users =~= self@.users);
            assert(t@.comments =~= self@.comments);
            assert(t@.visits =~= self@.visits);
            assert(t@.mentions =~= self@.mentions);
            assert(t@.votes =~= self@.votes);
        }
        t
    }

    /// The store that holds the given rows, if they keep the invariant:
    /// positive ids that ascend in each table but the votes, unique
    /// paths, tokens, names and addresses, visits of chapters that are
    /// there, counters that equal the visit rows, ratings from 1 to 5 and
    /// no second vote of a user for a candidate. Ids may leave gaps.
    pub fn restore(tables: Tables) -> (r: Option<Store>)
        ensures
            match r {
                Some(store) => store.wf() && store@ == tables@,
                None => !tables@.wf(),
            },
    {
        if !chapters_hold(&tables) || !users_hold(&tables) || !comments_hold(&tables)
            || !votes_hold(&tables) {
            return None;
        }
        let vote_serial = highest_id(&tables.votes);
        Some(
            Store {
                chapters: tables.chapters,
                visits: tables.visits,
                users: tables.users,
                comments: tables.comments,
                mentions: tables.mentions,
                votes: tables.votes,
                vote_serial,
            },
        )
    }
}

/// Looks a chapter up by its exact path, and inserts it with a counter
/// of 0 if it is not there. Fails, and changes nothing, only if the
/// chapter would need an id and none is left.
pub fn get_chapter(store: &mut Store, relative_path_value: &str) -> (r: Result<Chapter, WTError>)
    requires
        old(store).wf(),
    ensures
        final(store).wf(),
        final(store)@ == old(store)@.with_chapter(relative_path_value@),
        r is Ok <==> (old(store)@.has_chapter(relative_path_value@) || !old(store)@.chapters_full()),
        match r {
            Ok(c) => final(store)@.has_chapter(relative_path_value@) && c@
                == final(store)@.chapters[final(store)@.chapter_index(relative_path_value@)],
            Err(e) => e == WTError::InternalError(Fault::IdsExhausted),
        },
{
    match store.place_chapter(relative_path_value.to_owned()) {
        Ok(i) => Ok(store.chapters[i].duplicate()),
        Err(e) => Err(e),
    }
}

/// The user with this token; none if the text has not the shape of a
/// token or no user has it.
pub fn get_user(store: &Store, token: &str) -> (r: Option<User>)
    requires
        store.wf(),
    ensures
        match r {
            Some(u) => store@.resolve(token@).is_some() && u@ == store@.users[store@.resolve(
                token@,
            ).unwrap()],
            None => store@.resolve(token@).is_none(),
        },
{
    match store.find_token(token) {
        Some(i) => Some(store.users[i].duplicate()),
        None => None,
    }
}

/// The id of the user with this token, under the same conditions.
pub fn get_user_id(store: &Store, token: &str) -> (r: Option<i64>)
    requires
        store.wf(),
    ensures
        match r {
            Some(id) => store@.resolve(token@).is_some() && id == store@.users[store@.resolve(
                token@,
            ).unwrap()].id,
            None => store@.resolve(token@).is_none(),
        },
{
    match store.find_token(token) {
        Some(i) => Some(store.users[i].id),
        None => None,
    }
}

/// The user with this user name, if there is one.
pub fn get_user_by_user_name(store: &Store, user_name_value: &str) -> (r: Option<User>)
    requires
        store.wf(),
    ensures
        match r {
            Some(u) => store@.name_known(user_name_value@) && u@ == store@.users[store@.name_index(
                user_name_value@,
            )],
            None => !store@.name_known(user_name_value@),
        },
{
    let wanted = user_name_value.to_owned();
    match store.find_name(&wanted) {
        Some(i) => Some(store.users[i].duplicate()),
        None => None,
    }
}

} // verus!
