//! Every operation keeps the invariant of the store, and a row that is
//! found is the row that the model speaks of.

use vstd::prelude::*;
use crate::codes::Verdict;
use crate::models::Visit;
use crate::state::State;
use crate::state::count_visits;
use crate::state::visit_of;

verus! {

/// A chapter that no visit row names has no visits.
pub proof fn lemma_no_visits(visits: Seq<Visit>, chapter_id: i32)
    requires
        forall|i: int| 0 <= i < visits.len() ==> (#[trigger] visits[i]).chapter_id != chapter_id,
    ensures
        count_visits(visits, chapter_id) == 0,
    decreases visits.len(),
{
    reveal(Seq::filter);
    if visits.len() > 0 {
        lemma_no_visits(visits.drop_last(), chapter_id);
    }
}

/// One more visit row raises the count of its chapter by one and leaves
/// the others.
pub proof fn lemma_count_push(visits: Seq<Visit>, v: Visit, chapter_id: i32)
    ensures
        count_visits(visits.push(v), chapter_id) == count_visits(visits, chapter_id) + (if v.chapter_id
            == chapter_id {
            1nat
        } else {
            0nat
        }),
        count_visits(visits, chapter_id) <= visits.len(),
{
    visits.lemma_filter_push(v, visit_of(chapter_id));
    visits.lemma_filter_len(visit_of(chapter_id));
}

/// Positive ids that ascend leave no room below them: the id at index `i`
/// is at least `i + 1`.
pub proof fn lemma_ids_spread(ids: Seq<int>)
    requires
        forall|i: int| 0 <= i < ids.len() ==> #[trigger] ids[i] >= 1,
        forall|i: int, j: int| 0 <= i < j < ids.len() ==> #[trigger] ids[i] < #[trigger] ids[j],
    ensures
        forall|i: int| 0 <= i < ids.len() ==> #[trigger] ids[i] >= i + 1,
    decreases ids.len(),
{
    if ids.len() > 0 {
        let rest = ids.drop_last();
        lemma_ids_spread(rest);
        assert forall|i: int| 0 <= i < ids.len() implies #[trigger] ids[i] >= i + 1 by {
            if i < rest.len() {
                assert(rest[i] == ids[i]);
            } else if i > 0 {
                assert(rest[i - 1] == ids[i - 1]);
                assert(ids[i - 1] < ids[i]);
            }
        }
    }
}

impl State {
    /// Paths are unique, so a chapter found at `i` is the chapter of its
    /// path.
    pub proof fn lemma_chapter_found(self, path: Seq<char>, i: int)
        requires
            self.chapters_wf(),
            self.chapter_at(path, i),
        ensures
            self.has_chapter(path),
            self.chapter_index(path) == i,
    {
        let j = self.chapter_index(path);
        assert(self.chapter_at(path, j));
        if i < j {
            assert(self.chapters[i].relative_path != self.chapters[j].relative_path);
        }
        if j < i {
            assert(self.chapters[j].relative_path != self.chapters[i].relative_path);
        }
    }

    /// Ids ascend, so a chapter found at `i` is the chapter of its id.
    pub proof fn lemma_chapter_id_found(self, id: i32, i: int)
        requires
            self.chapters_wf(),
            self.chapter_id_at(id, i),
        ensures
            self.has_chapter_id(id),
            self.chapter_id_index(id) == i,
    {
        let j = self.chapter_id_index(id);
        assert(self.chapter_id_at(id, j));
        if i < j {
            assert(self.chapters[i].id < self.chapters[j].id);
        }
        if j < i {
            assert(self.chapters[j].id < self.chapters[i].id);
        }
    }

    /// Ids ascend, so a user found at `i` is the user of the id.
    pub proof fn lemma_user_id_found(self, id: i64, i: int)
        requires
            self.users_wf(),
            self.user_id_at(id, i),
        ensures
            self.has_user_id(id),
            self.user_id_index(id) == i,
    {
        let j = self.user_id_index(id);
        assert(self.user_id_at(id, j));
        if i < j {
            assert(self.users[i].id < self.users[j].id);
        }
        if j < i {
            assert(self.users[j].id < self.users[i].id);
        }
    }

    /// Ids ascend, so a comment found at `i` is the comment of the id.
    pub proof fn lemma_comment_found(self, comment_id: i64, i: int)
        requires
            self.comments_wf(),
            self.comment_at(comment_id, i),
        ensures
            self.has_comment(comment_id),
            self.comment_index(comment_id) == i,
    {
        let j = self.comment_index(comment_id);
        assert(self.comment_at(comment_id, j));
        if i < j {
            assert(self.comments[i].id < self.comments[j].id);
        }
        if j < i {
            assert(self.comments[j].id < self.comments[i].id);
        }
    }

    /// Tokens are unique, so a user found at `i` is the user of the token.
    pub proof fn lemma_token_found(self, token: Seq<char>, i: int)
        requires
            self.users_wf(),
            self.token_at(token, i),
        ensures
            self.token_known(token),
            self.token_index(token) == i,
    {
        let j = self.token_index(token);
        assert(self.token_at(token, j));
        if i < j {
            assert(self.users[i].token != self.users[j].token);
        }
        if j < i {
            assert(self.users[j].token != self.users[i].token);
        }
    }

    /// User names are unique, so a user found at `i` is the user of the
    /// name.
    pub proof fn lemma_name_found(self, user_name: Seq<char>, i: int)
        requires
            self.users_wf(),
            self.name_at(user_name, i),
        ensures
            self.name_known(user_name),
            self.name_index(user_name) == i,
    {
        let j = self.name_index(user_name);
        assert(self.name_at(user_name, j));
        if i < j {
            assert(self.users[i].user_name != self.users[j].user_name);
        }
        if j < i {
            assert(self.users[j].user_name != self.users[i].user_name);
        }
    }

    /// A user has one row for a candidate at most, so a vote found at `i`
    /// is the vote of the pair.
    pub proof fn lemma_vote_found(self, user_id: i64, chapter_vote_id: i16, i: int)
        requires
            self.votes_wf(),
            self.vote_at(user_id, chapter_vote_id, i),
        ensures
            self.has_vote(user_id, chapter_vote_id),
            self.vote_index(user_id, chapter_vote_id) == i,
    {
        let j = self.vote_index(user_id, chapter_vote_id);
        assert(self.vote_at(user_id, chapter_vote_id, j));
        if i < j {
            assert(!(self.votes[i].user_id == self.votes[j].user_id && self.votes[i].chapter_vote_id
                == self.votes[j].chapter_vote_id));
        }
        if j < i {
            assert(!(self.votes[j].user_id == self.votes[i].user_id && self.votes[j].chapter_vote_id
                == self.votes[i].chapter_vote_id));
        }
    }

    /// The empty store is well formed.
    pub proof fn lemma_empty_wf()
        ensures
            State::empty().wf(),
    {
    }

    /// Looking a chapter up, and inserting it where it is missing, keeps
    /// the invariant, and afterwards the chapter is there unless the ids
    /// have run out.
    pub proof fn lemma_with_chapter_wf(self, path: Seq<char>)
        requires
            self.wf(),
        ensures
            self.with_chapter(path).wf(),
            self.has_chapter(path) || !self.chapters_full() ==> self.with_chapter(path).has_chapter(
                path,
            ),
    {
        let s = self.with_chapter(path);
        if !self.has_chapter(path) && !self.chapters_full() {
            let n = self.chapters.len() as int;
            let id = self.next_chapter_id() as i32;
            assert(s.chapter_at(path, n));
            let chapters_ids = Seq::new(self.chapters.len(), |i: int| self.chapters[i].id as int);
            lemma_ids_spread(chapters_ids);
            assert(self.chapters.len() == 0 || chapters_ids[self.chapters.len() - 1] >= self.chapters.len());
            assert(n == 0 || self.chapters[n - 1].id >= n);
            assert forall|i: int| 0 <= i < self.visits.len() implies (
            #[trigger] self.visits[i]).chapter_id != id && s.has_chapter_id(
                self.visits[i].chapter_id,
            ) by {
                let k = self.chapter_id_index(self.visits[i].chapter_id);
                assert(self.chapter_id_at(self.visits[i].chapter_id, k));
                assert(k == n - 1 || self.chapters[k].id < self.chapters[n - 1].id);
                assert(s.chapter_id_at(self.visits[i].chapter_id, k));
            }
            lemma_no_visits(self.visits, id);
            assert forall|i: int, j: int| 0 <= i < j < s.chapters.len() implies (
            #[trigger] s.chapters[i]).relative_path != (#[trigger] s.chapters[j]).relative_path
                && s.chapters[i].id < s.chapters[j].id by {
                if j == n {
                    assert(!self.chapter_at(path, i));
                    assert(i == n - 1 || self.chapters[i].id < self.chapters[n - 1].id);
                }
            }
        }
    }

    /// Recording a visit keeps the invariant.
    pub proof fn lemma_record_visit_wf(self, path: Seq<char>, now: i64)
        requires
            self.wf(),
        ensures
            self.record_visit(path, now).wf(),
    {
        if !self.visit_fault(path) {
            let s = self.with_chapter(path);
            self.lemma_with_chapter_wf(path);
            let i = s.chapter_index(path);
            assert(s.chapter_at(path, i));
            let c = s.chapters[i];
            let t = self.record_visit(path, now);
            let n = s.visits.len() as int;
            let v = Visit { id: s.next_visit_id() as i64, chapter_id: c.id, timestamp: now };
            let visits_ids = Seq::new(s.visits.len(), |k: int| s.visits[k].id as int);
            lemma_ids_spread(visits_ids);
            assert(s.visits.len() == 0 || visits_ids[s.visits.len() - 1] >= s.visits.len());
            assert(n == 0 || s.visits[n - 1].id >= n);
            assert forall|k: int| 0 <= k < t.chapters.len() implies (#[trigger] t.chapters[k]).visit_count
                == count_visits(t.visits, t.chapters[k].id) by {
                lemma_count_push(s.visits, v, s.chapters[k].id);
                if k != i {
                    if k < i {
                        assert(s.chapters[k].id < s.chapters[i].id);
                    } else {
                        assert(s.chapters[i].id < s.chapters[k].id);
                    }
                }
            }
            lemma_count_push(s.visits, v, c.id);
            assert forall|k: int| 0 <= k < t.visits.len() implies (#[trigger] t.visits[k]).id >= 1
                && t.has_chapter_id(t.visits[k].chapter_id) by {
                if k < n {
                    let w = s.chapter_id_index(s.visits[k].chapter_id);
                    assert(s.chapter_id_at(s.visits[k].chapter_id, w));
                    assert(t.chapter_id_at(s.visits[k].chapter_id, w));
                } else {
                    assert(t.chapter_id_at(c.id, i));
                }
            }
            assert forall|k: int, j: int| 0 <= k < j < t.visits.len() implies (
            #[trigger] t.visits[k]).id < (#[trigger] t.visits[j]).id by {
                if j == n {
                    assert(k == n - 1 || s.visits[k].id < s.visits[n - 1].id);
                }
            }
            assert forall|k: int, j: int| 0 <= k < j < t.chapters.len() implies (
            #[trigger] t.chapters[k]).id < (#[trigger] t.chapters[j]).id && t.chapters[k].relative_path
                != t.chapters[j].relative_path by {
                assert(s.chapters[k].id < s.chapters[j].id);
                assert(s.chapters[k].relative_path != s.chapters[j].relative_path);
            }
        }
    }

    /// A registration keeps the invariant.
    pub proof fn lemma_register_wf(
        self,
        token: Seq<char>,
        user_name: Seq<char>,
        display_name: Seq<char>,
        email: Option<Seq<char>>,
        now: i64,
    )
        requires
            self.wf(),
        ensures
            self.register(token, user_name, display_name, email, now).wf(),
    {
        let t = self.register(token, user_name, display_name, email, now);
        if t != self {
            let n = self.users.len() as int;
            let users_ids = Seq::new(self.users.len(), |i: int| self.users[i].id as int);
            lemma_ids_spread(users_ids);
            assert(self.users.len() == 0 || users_ids[self.users.len() - 1] >= self.users.len());
            assert(n == 0 || self.users[n - 1].id >= n);
            assert forall|i: int| 0 <= i < n implies (#[trigger] self.users[i]).token != token
                && self.users[i].user_name != user_name && self.users[i].display_name
                != display_name && (email.is_some() ==> self.users[i].email != email)
                && self.users[i].id < self.next_user_id() by {
                assert(!self.token_at(token, i));
                assert(i == n - 1 || self.users[i].id < self.users[n - 1].id);
            }
            assert(t.users_wf());
        }
    }

    /// A profile update keeps the invariant.
    pub proof fn lemma_update_profile_wf(
        self,
        token: Seq<char>,
        display_name: Seq<char>,
        email: Option<Seq<char>>,
    )
        requires
            self.wf(),
        ensures
            self.update_profile(token, display_name, email).wf(),
    {
        if self.update_verdict(token, display_name, email) == Verdict::Success {
            let u = self.resolve(token).unwrap();
            let t = self.update_profile(token, display_name, email);
            assert(self.token_at(token, u));
            assert forall|i: int| 0 <= i < self.users.len() && i != u implies (
            #[trigger] self.users[i]).token != token && self.users[i].display_name != display_name
                && (email.is_some() ==> self.users[i].email != email) by {
                if i < u {
                    assert(self.users[i].token != self.users[u].token);
                } else {
                    assert(self.users[u].token != self.users[i].token);
                }
            }
            assert(t.users_wf());
        }
    }

    /// A look at the mentions keeps the invariant.
    pub proof fn lemma_checked_wf(self, token: Seq<char>, now: i64)
        requires
            self.wf(),
        ensures
            self.checked(token, now).wf(),
    {
        if self.resolve(token).is_some() {
            let u = self.resolve(token).unwrap();
            assert(self.token_at(token, u));
            assert(self.checked(token, now).users_wf());
        }
    }

    /// Posting a comment keeps the invariant.
    pub proof fn lemma_send_wf(
        self,
        token: Seq<char>,
        path: Seq<char>,
        content: Seq<char>,
        now: i64,
        names: Seq<Seq<char>>,
    )
        requires
            self.wf(),
        ensures
            self.send(token, path, content, now, names).wf(),
    {
        if self.send_ok(token, path, names) {
            self.lemma_with_chapter_wf(path);
            let s = self.with_chapter(path);
            s.lemma_resolved_ids_len(names);
            let t = self.send(token, path, content, now, names);
            let n = s.comments.len() as int;
            let m = s.mentions.len() as int;
            let comments_ids = Seq::new(s.comments.len(), |i: int| s.comments[i].id as int);
            lemma_ids_spread(comments_ids);
            assert(s.comments.len() == 0 || comments_ids[s.comments.len() - 1] >= s.comments.len());
            let mentions_ids = Seq::new(s.mentions.len(), |i: int| s.mentions[i].id as int);
            lemma_ids_spread(mentions_ids);
            assert(s.mentions.len() == 0 || mentions_ids[s.mentions.len() - 1] >= s.mentions.len());
            assert(n == 0 || s.comments[n - 1].id >= n);
            assert(m == 0 || s.mentions[m - 1].id >= m);
            assert forall|i: int, j: int| 0 <= i < j < t.comments.len() implies (
            #[trigger] t.comments[i]).id < (#[trigger] t.comments[j]).id by {
                if j == n {
                    assert(i == n - 1 || s.comments[i].id < s.comments[n - 1].id);
                }
            }
            assert forall|i: int, j: int| 0 <= i < j < t.mentions.len() implies (
            #[trigger] t.mentions[i]).id < (#[trigger] t.mentions[j]).id by {
                if j >= m && i < m {
                    assert(i == m - 1 || s.mentions[i].id < s.mentions[m - 1].id);
                }
            }
            assert(t.comments_wf());
        }
    }

    /// Each name gives one id at most.
    pub proof fn lemma_resolved_ids_len(self, names: Seq<Seq<char>>)
        ensures
            self.resolved_ids(names).len() <= names.len(),
        decreases names.len(),
    {
        if names.len() > 0 {
            self.lemma_resolved_ids_len(names.drop_last());
        }
    }

    /// A feed over the first `n` comments has `n` rows at most.
    pub proof fn lemma_feed_len(self, keep: spec_fn(crate::models::CommentRow) -> bool, n: int)
        ensures
            self.feed(keep, n).len() <= n || n < 0,
        decreases n,
    {
        if 0 < n <= self.comments.len() {
            self.lemma_feed_len(keep, n - 1);
        }
    }

    /// Deleting a comment keeps the invariant.
    pub proof fn lemma_delete_wf(self, comment_id: i64, token: Seq<char>)
        requires
            self.wf(),
        ensures
            self.delete(comment_id, token).wf(),
    {
    }

    /// A vote keeps the invariant.
    pub proof fn lemma_vote_wf(self, token: Seq<char>, chapter_vote_id: i16, rating: i16)
        requires
            self.wf(),
        ensures
            self.vote(token, chapter_vote_id, rating).wf(),
    {
        if self.vote_ok(token, chapter_vote_id, rating) {
            let user_id = self.users[self.resolve(token).unwrap()].id;
            let t = self.vote(token, chapter_vote_id, rating);
            if self.has_vote(user_id, chapter_vote_id) {
                let i = self.vote_index(user_id, chapter_vote_id);
                assert(self.vote_at(user_id, chapter_vote_id, i));
                assert(t.votes_wf());
            } else {
                assert forall|i: int| 0 <= i < self.votes.len() implies !((
                #[trigger] self.votes[i]).user_id == user_id && self.votes[i].chapter_vote_id
                    == chapter_vote_id) by {
                    assert(!self.vote_at(user_id, chapter_vote_id, i));
                }
                assert(t.votes_wf());
            }
        }
    }
}

} // verus!
