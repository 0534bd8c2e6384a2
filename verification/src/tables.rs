//! The rows of the store as they lie in storage, and the test that tells
//! whether they keep the invariant of the store.

use vstd::prelude::*;
use crate::models::chapter_rows;
use crate::models::comment_rows;
use crate::models::text_of;
use crate::models::user_rows;
use crate::models::Chapter;
use crate::models::Comment;
use crate::models::Mention;
use crate::models::User;
use crate::models::Visit;
use crate::models::WTCup2020Vote;
use crate::state::chapter_has_id;
use crate::state::count_visits;
use crate::state::some_chapter_has_id;
use crate::state::highest_vote_id;
use crate::state::visit_of;
use crate::state::State;

verus! {

/// The rows of the six tables, as they come from storage.
#[derive(Debug)]
pub struct Tables {
    pub chapters: Vec<Chapter>,
    pub visits: Vec<Visit>,
    pub users: Vec<User>,
    pub comments: Vec<Comment>,
    pub mentions: Vec<Mention>,
    pub votes: Vec<WTCup2020Vote>,
}

impl View for Tables {
    type V = State;

    open spec fn view(&self) -> State {
        State {
            chapters: chapter_rows(self.chapters@),
            visits: self.visits@,
            users: user_rows(self.users@),
            comments: comment_rows(self.comments@),
            mentions: self.mentions@,
            votes: self.votes@,
            vote_serial: highest_vote_id(self.votes@),
        }
    }
}

pub(crate) fn highest_id(votes: &Vec<WTCup2020Vote>) -> (r: i64)
    ensures
        r == highest_vote_id(votes@),
{
    let mut r: i64 = 0;
    let mut i: usize = 0;
    assert(votes@.take(0) =~= Seq::empty());
    while i < votes.len()
        invariant
            i <= votes.len(),
            r == highest_vote_id(votes@.take(i as int)),
        decreases votes.len() - i,
    {
        assert(votes@.take(i + 1).drop_last() =~= votes@.take(i as int));
        if votes[i].id > r {
            r = votes[i].id;
        }
        i += 1;
    }
    assert(votes@.take(i as int) =~= votes@);
    r
}

fn count_rows(visits: &Vec<Visit>, chapter_id: i32) -> (n: usize)
    ensures
        n == count_visits(visits@, chapter_id),
{
    let mut n: usize = 0;
    let mut j: usize = 0;
    let ghost pred = visit_of(chapter_id);
    proof {
        reveal(Seq::filter);
        assert(visits@.take(0) =~= Seq::empty());
    }
    while j < visits.len()
        invariant
            j <= visits.len(),
            pred == visit_of(chapter_id),
            n == visits@.take(j as int).filter(pred).len(),
            n <= j,
        decreases visits.len() - j,
    {
        let v = visits[j];
        proof {
            assert(visits@.take(j + 1) =~= visits@.take(j as int).push(v));
            visits@.take(j as int).lemma_filter_push(v, pred);
        }
        if v.chapter_id == chapter_id {
            n += 1;
        }
        j += 1;
    }
    assert(visits@.take(j as int) =~= visits@);
    n
}

/// Whether some chapter of the table has this id.
fn holds_chapter_id(chapters: &Vec<Chapter>, id: i32) -> (r: bool)
    ensures
        r == some_chapter_has_id(chapter_rows(chapters@), id),
{
    let mut i: usize = 0;
    while i < chapters.len()
        invariant
            i <= chapters.len(),
            forall|j: int| 0 <= j < i ==> !chapter_has_id(chapter_rows(chapters@), id, j),
        decreases chapters.len() - i,
    {
        if chapters[i].id == id {
            assert(chapter_has_id(chapter_rows(chapters@), id, i as int));
            return true;
        }
        i += 1;
    }
    false
}

pub(crate) fn chapters_hold(tables: &Tables) -> (r: bool)
    ensures
        r == tables@.chapters_wf(),
{
    let ghost s = tables@;
    let chapters = &tables.chapters;
    let visits = &tables.visits;
    if chapters.len() as u64 > 0x7fff_ffffu64 || visits.len() as u64 > 0x7fff_ffff_ffff_ffffu64 {
        return false;
    }
    let mut i: usize = 0;
    while i < chapters.len()
        invariant
            i <= chapters.len(),
            s == tables@,
            chapters == &tables.chapters,
            visits == &tables.visits,
            chapters.len() <= i32::MAX,
            forall|a: int| 0 <= a < i ==> (#[trigger] s.chapters[a]).id >= 1,
            forall|a: int, b: int|
                0 <= a < b < i ==> (#[trigger] s.chapters[a]).id < (#[trigger] s.chapters[b]).id,
            forall|a: int|
                0 <= a < i ==> (#[trigger] s.chapters[a]).visit_count == count_visits(
                    s.visits,
                    s.chapters[a].id,
                ),
            forall|a: int, b: int|
                0 <= a < b < chapters.len() && a < i ==> (#[trigger] s.chapters[a]).relative_path
                    != (#[trigger] s.chapters[b]).relative_path,
        decreases chapters.len() - i,
    {
        assert(s.chapters[i as int] == chapters[i as int]@);
        if chapters[i].id < 1 {
            return false;
        }
        if i > 0 {
            assert(s.chapters[i - 1] == chapters[i - 1]@);
            if chapters[i - 1].id >= chapters[i].id {
                assert(!(s.chapters[i - 1].id < s.chapters[i as int].id));
                return false;
            }
        }
        let n = count_rows(visits, chapters[i].id);
        if chapters[i].visit_count < 0 || chapters[i].visit_count as u64 != n as u64 {
            assert(s.chapters[i as int].visit_count != count_visits(
                s.visits,
                s.chapters[i as int].id,
            ));
            return false;
        }
        let mut j: usize = i + 1;
        while j < chapters.len()
            invariant
                i < j <= chapters.len(),
                s == tables@,
                chapters == &tables.chapters,
                forall|b: int|
                    i < b < j ==> (#[trigger] s.chapters[b]).relative_path != s.chapters[i as int].relative_path,
            decreases chapters.len() - j,
        {
            if chapters[i].relative_path == chapters[j].relative_path {
                assert(s.chapters[i as int].relative_path == s.chapters[j as int].relative_path);
                return false;
            }
            j += 1;
        }
        i += 1;
    }
    let mut k: usize = 0;
    while k < visits.len()
        invariant
            k <= visits.len(),
            s == tables@,
            chapters == &tables.chapters,
            visits == &tables.visits,
            forall|a: int|
                0 <= a < k ==> (#[trigger] s.visits[a]).id >= 1 && s.has_chapter_id(
                    s.visits[a].chapter_id,
                ),
            forall|a: int, b: int|
                0 <= a < b < k ==> (#[trigger] s.visits[a]).id < (#[trigger] s.visits[b]).id,
        decreases visits.len() - k,
    {
        let v = visits[k];
        if v.id < 1 || !holds_chapter_id(chapters, v.chapter_id) {
            assert(!(s.visits[k as int].id >= 1 && s.has_chapter_id(
                s.visits[k as int].chapter_id,
            )));
            return false;
        }
        if k > 0 && visits[k - 1].id >= v.id {
            assert(!(s.visits[k - 1].id < s.visits[k as int].id));
            return false;
        }
        k += 1;
    }
    true
}

/// Whether two optional strings hold the same text, or both none.
fn same_text(a: &Option<String>, b: &Option<String>) -> (r: bool)
    ensures
        r == (text_of(*a) == text_of(*b)),
{
    match (a, b) {
        (Some(x), Some(y)) => *x == *y,
        (None, None) => true,
        _ => false,
    }
}

pub(crate) fn users_hold(tables: &Tables) -> (r: bool)
    ensures
        r == tables@.users_wf(),
{
    let ghost s = tables@;
    let users = &tables.users;
    if users.len() as u64 > 0x7fff_ffff_ffff_ffffu64 {
        return false;
    }
    let mut i: usize = 0;
    while i < users.len()
        invariant
            i <= users.len(),
            s == tables@,
            users == &tables.users,
            forall|a: int| 0 <= a < i ==> (#[trigger] s.users[a]).id >= 1,
            forall|a: int, b: int|
                0 <= a < b < i ==> (#[trigger] s.users[a]).id < (#[trigger] s.users[b]).id,
            forall|a: int, b: int|
                0 <= a < b < users.len() && a < i ==> {
                    &&& (#[trigger] s.users[a]).token != (#[trigger] s.users[b]).token
                    &&& s.users[a].user_name != s.users[b].user_name
                    &&& s.users[a].display_name != s.users[b].display_name
                    &&& (s.users[a].email.is_some() ==> s.users[a].email != s.users[b].email)
                },
        decreases users.len() - i,
    {
        assert(s.users[i as int] == users[i as int]@);
        if users[i].id < 1 {
            return false;
        }
        if i > 0 {
            assert(s.users[i - 1] == users[i - 1]@);
            if users[i - 1].id >= users[i].id {
                assert(!(s.users[i - 1].id < s.users[i as int].id));
                return false;
            }
        }
        let mut j: usize = i + 1;
        while j < users.len()
            invariant
                i < j <= users.len(),
                s == tables@,
                users == &tables.users,
                forall|b: int|
                    i < b < j ==> {
                        &&& s.users[i as int].token != (#[trigger] s.users[b]).token
                        &&& s.users[i as int].user_name != s.users[b].user_name
                        &&& s.users[i as int].display_name != s.users[b].display_name
                        &&& (s.users[i as int].email.is_some() ==> s.users[i as int].email
                            != s.users[b].email)
                    },
            decreases users.len() - j,
        {
            assert(s.users[j as int] == users[j as int]@);
            let clash = users[i].token == users[j].token || users[i].user_name
                == users[j].user_name || users[i].display_name == users[j].display_name || (
            users[i].email.is_some() && same_text(&users[i].email, &users[j].email));
            if clash {
                assert(!({
                    &&& s.users[i as int].token != s.users[j as int].token
                    &&& s.users[i as int].user_name != s.users[j as int].user_name
                    &&& s.users[i as int].display_name != s.users[j as int].display_name
                    &&& (s.users[i as int].email.is_some() ==> s.users[i as int].email
                        != s.users[j as int].email)
                }));
                return false;
            }
            j += 1;
        }
        i += 1;
    }
    true
}

pub(crate) fn comments_hold(tables: &Tables) -> (r: bool)
    ensures
        r == tables@.comments_wf(),
{
    let ghost s = tables@;
    let comments = &tables.comments;
    let mentions = &tables.mentions;
    if comments.len() as u64 > 0x7fff_ffff_ffff_ffffu64 || mentions.len() as u64
        > 0x7fff_ffff_ffff_ffffu64 {
        return false;
    }
    let mut i: usize = 0;
    while i < comments.len()
        invariant
            i <= comments.len(),
            s == tables@,
            comments == &tables.comments,
            forall|a: int| 0 <= a < i ==> (#[trigger] s.comments[a]).id >= 1,
            forall|a: int, b: int|
                0 <= a < b < i ==> (#[trigger] s.comments[a]).id < (#[trigger] s.comments[b]).id,
        decreases comments.len() - i,
    {
        assert(s.comments[i as int] == comments[i as int]@);
        if comments[i].id < 1 {
            return false;
        }
        if i > 0 {
            assert(s.comments[i - 1] == comments[i - 1]@);
            if comments[i - 1].id >= comments[i].id {
                assert(!(s.comments[i - 1].id < s.comments[i as int].id));
                return false;
            }
        }
        i += 1;
    }
    let mut k: usize = 0;
    while k < mentions.len()
        invariant
            k <= mentions.len(),
            s == tables@,
            mentions == &tables.mentions,
            forall|a: int| 0 <= a < k ==> (#[trigger] s.mentions[a]).id >= 1,
            forall|a: int, b: int|
                0 <= a < b < k ==> (#[trigger] s.mentions[a]).id < (#[trigger] s.mentions[b]).id,
        decreases mentions.len() - k,
    {
        if mentions[k].id < 1 {
            return false;
        }
        if k > 0 && mentions[k - 1].id >= mentions[k].id {
            assert(!(s.mentions[k - 1].id < s.mentions[k as int].id));
            return false;
        }
        k += 1;
    }
    true
}

pub(crate) fn votes_hold(tables: &Tables) -> (r: bool)
    ensures
        r == tables@.votes_wf(),
{
    let ghost s = tables@;
    let votes = &tables.votes;
    let mut i: usize = 0;
    while i < votes.len()
        invariant
            i <= votes.len(),
            s == tables@,
            votes == &tables.votes,
            forall|a: int| 0 <= a < i ==> 1 <= (#[trigger] s.votes[a]).rating <= 5,
            forall|a: int, b: int|
                0 <= a < b < votes.len() && a < i ==> !((#[trigger] s.votes[a]).user_id == (
                #[trigger] s.votes[b]).user_id && s.votes[a].chapter_vote_id
                    == s.votes[b].chapter_vote_id),
        decreases votes.len() - i,
    {
        if votes[i].rating < 1 || votes[i].rating > 5 {
            assert(!(1 <= s.votes[i as int].rating <= 5));
            return false;
        }
        let mut j: usize = i + 1;
        while j < votes.len()
            invariant
                i < j <= votes.len(),
                s == tables@,
                votes == &tables.votes,
                forall|b: int|
                    i < b < j ==> !(s.votes[i as int].user_id == (#[trigger] s.votes[b]).user_id
                        && s.votes[i as int].chapter_vote_id == s.votes[b].chapter_vote_id),
            decreases votes.len() - j,
        {
            if votes[i].user_id == votes[j].user_id && votes[i].chapter_vote_id
                == votes[j].chapter_vote_id {
                assert(s.votes[i as int].user_id == s.votes[j as int].user_id
                    && s.votes[i as int].chapter_vote_id == s.votes[j as int].chapter_vote_id);
                return false;
            }
            j += 1;
        }
        i += 1;
    }
    true
}

} // verus!
