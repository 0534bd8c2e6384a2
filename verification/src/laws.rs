//! What holds of the store across several operations. Each statement is
//! proved from the model that the operations' contracts are written in.

use vstd::prelude::*;
use crate::codes::ErrorCode;
use crate::codes::Verdict;
use crate::models::CommentRow;
use crate::models::WTCup2020Vote;
use crate::ranking::key_leq;
use crate::ranking::lemma_ranked;
use crate::ranking::ranked;
use crate::state::FeedRow;
use crate::state::State;
use crate::state::count_visits;
use crate::validate::byte_len;
use crate::validate::comment_verdict;
use crate::validate::is_page_name_spec;
use crate::validate::is_token_spec;

verus! {

/// The store after one visit to `path` at each of the given times.
pub open spec fn visited_at(s: State, path: Seq<char>, times: Seq<i64>) -> State
    decreases times.len(),
{
    if times.len() == 0 {
        s
    } else {
        visited_at(s, path, times.drop_last()).record_visit(path, times.last())
    }
}

/// The visit counter of the chapter with this path; 0 if there is none.
pub open spec fn counter_of(s: State, path: Seq<char>) -> int {
    if s.has_chapter(path) {
        s.chapters[s.chapter_index(path)].visit_count as int
    } else {
        0
    }
}

/// How many visit rows the chapter with this path has; 0 if there is
/// none.
pub open spec fn visit_rows_of(s: State, path: Seq<char>) -> int {
    if s.has_chapter(path) {
        count_visits(s.visits, s.chapters[s.chapter_index(path)].id) as int
    } else {
        0
    }
}

/// One recorded visit raises the chapter's counter by one.
pub proof fn law_visit_counted(s: State, path: Seq<char>, now: i64)
    requires
        s.wf(),
        !s.visit_fault(path),
    ensures
        s.record_visit(path, now).wf(),
        s.record_visit(path, now).has_chapter(path),
        counter_of(s.record_visit(path, now), path) == counter_of(s, path) + 1,
        s.record_visit(path, now).visits.len() == s.visits.len() + 1,
        s.record_visit(path, now).next_visit_id() == s.next_visit_id() + 1,
{
    s.lemma_record_visit_wf(path, now);
    s.lemma_with_chapter_wf(path);
    let s1 = s.with_chapter(path);
    let i = s1.chapter_index(path);
    assert(s1.chapter_at(path, i));
    let t = s.record_visit(path, now);
    assert(t.chapter_at(path, i));
    t.lemma_chapter_found(path, i);
    crate::upkeep::lemma_count_push(s1.visits, t.visits.last(), s1.chapters[i].id);
    if s.has_chapter(path) {
    } else {
        assert(s1.chapter_at(path, s.chapters.len() as int));
        s1.lemma_chapter_found(path, s.chapters.len() as int);
    }
}

/// Repeated visits to a chapter path leave the chapter's counter higher
/// by exactly the number of calls, and equal to the number of the
/// chapter's visit rows, as long as the ids last. On a store without the
/// chapter the counter is therefore the number of calls.
pub proof fn law_visits_counted(s: State, path: Seq<char>, times: Seq<i64>)
    requires
        s.wf(),
        is_page_name_spec(path),
        s.next_visit_id() + times.len() <= i64::MAX + 1,
        s.has_chapter(path) || !s.chapters_full(),
    ensures
        visited_at(s, path, times).wf(),
        counter_of(visited_at(s, path, times), path) == counter_of(s, path) + times.len(),
        counter_of(visited_at(s, path, times), path) == visit_rows_of(
            visited_at(s, path, times),
            path,
        ),
        visited_at(s, path, times).visits.len() == s.visits.len() + times.len(),
        visited_at(s, path, times).next_visit_id() == s.next_visit_id() + times.len(),
        times.len() > 0 ==> visited_at(s, path, times).has_chapter(path),
    decreases times.len(),
{
    let t = visited_at(s, path, times);
    if times.len() > 0 {
        let before = visited_at(s, path, times.drop_last());
        law_visits_counted(s, path, times.drop_last());
        if times.len() == 1 {
            assert(before == s);
        }
        assert(!before.visit_fault(path));
        law_visit_counted(before, path, times.last());
    }
    if t.has_chapter(path) {
        assert(t.chapter_at(path, t.chapter_index(path)));
    }
}

/// A registration under a display name that some user has is turned
/// down as a duplicate name, whatever the e-mail address, the user name
/// and the token, and leaves the store as it was.
pub proof fn law_name_in_use(
    s: State,
    i: int,
    token: Seq<char>,
    user_name: Seq<char>,
    email: Option<Seq<char>>,
    now: i64,
)
    requires
        0 <= i < s.users.len(),
    ensures
        s.register_verdict(user_name, s.users[i].display_name, email) == Some(
            ErrorCode::NameDuplicated,
        ),
        s.register(token, user_name, s.users[i].display_name, email, now) == s,
{
    assert(s.users[i].display_name == s.users[i].display_name);
}

/// After a registration, a profile update with the same token, display
/// name and e-mail address succeeds and changes nothing: a user's own
/// row does not count as a duplicate.
pub proof fn law_own_profile_again(
    s: State,
    token: Seq<char>,
    user_name: Seq<char>,
    display_name: Seq<char>,
    email: Option<Seq<char>>,
    now: i64,
)
    requires
        s.wf(),
        is_token_spec(token),
        s.register_verdict(user_name, display_name, email).is_none(),
        !s.register_fault(token, user_name, display_name, email),
    ensures
        s.register(token, user_name, display_name, email, now).update_verdict(
            token,
            display_name,
            email,
        ) == Verdict::Success,
        s.register(token, user_name, display_name, email, now).update_profile(
            token,
            display_name,
            email,
        ) == s.register(token, user_name, display_name, email, now),
{
    let t = s.register(token, user_name, display_name, email, now);
    s.lemma_register_wf(token, user_name, display_name, email, now);
    let n = s.users.len() as int;
    assert(t.token_at(token, n));
    t.lemma_token_found(token, n);
    assert forall|i: int| 0 <= i < t.users.len() && (#[trigger] t.users[i]).token != token implies
        t.users[i].display_name != display_name && (email.is_some() ==> t.users[i].email
        != email) by {
        assert(i < n);
        assert(s.users[i] == t.users[i]);
    }
    assert(t.users.update(n, t.users[n]) =~= t.users);
}

/// Every row of a feed is a comment of the store that is shown: a
/// deleted comment is in no feed.
pub proof fn law_feeds_show_live_comments(s: State, keep: spec_fn(CommentRow) -> bool, n: int)
    requires
        n <= s.comments.len(),
    ensures
        forall|j: int|
            0 <= j < s.feed(keep, n).len() ==> s.shown((#[trigger] s.feed(keep, n)[j]).comment)
                && s.comments.contains(s.feed(keep, n)[j].comment),
    decreases n,
{
    if n > 0 {
        law_feeds_show_live_comments(s, keep, n - 1);
        let c = s.comments[n - 1];
        assert(s.comments.contains(c));
        let rest = s.feed(keep, n - 1);
        assert forall|j: int| 0 <= j < s.feed(keep, n).len() implies s.shown(
            (#[trigger] s.feed(keep, n)[j]).comment,
        ) && s.comments.contains(s.feed(keep, n)[j].comment) by {
            if s.shown(c) && keep(c) {
                if j > 0 {
                    assert(s.feed(keep, n)[j] == rest[j - 1]);
                }
            }
        }
    }
}

/// The rows of a feed that show another comment than this one.
pub open spec fn other_than(comment_id: i64) -> spec_fn(FeedRow) -> bool {
    |row: FeedRow| row.comment.id != comment_id
}

/// After a delete, the comments of a chapter among the first `n` are
/// those from before without the deleted one, in the same order.
pub proof fn lemma_feed_after_delete(
    s: State,
    comment_id: i64,
    token: Seq<char>,
    path: Seq<char>,
    n: int,
)
    requires
        s.wf(),
        s.delete_ok(comment_id, token),
        0 <= n <= s.comments.len(),
    ensures
        s.delete(comment_id, token).feed(s.delete(comment_id, token).on_path(path), n) == s.feed(
            s.on_path(path),
            n,
        ).filter(other_than(comment_id)),
    decreases n,
{
    reveal(Seq::filter);
    let t = s.delete(comment_id, token);
    let pred = other_than(comment_id);
    let gone = s.comment_index(comment_id);
    assert(s.comment_at(comment_id, gone));
    if n > 0 {
        lemma_feed_after_delete(s, comment_id, token, path, n - 1);
        let before = s.feed(s.on_path(path), n - 1);
        let c = s.comments[n - 1];
        let row = s.joined(c);
        if n - 1 != gone {
            assert(t.comments[n - 1] == c);
            if c.id == comment_id {
                s.lemma_comment_found(comment_id, n - 1);
            }
            assert(t.joined(c) == row);
        } else {
            assert(t.comments[n - 1].deleted);
        }
        if s.shown(c) && (s.on_path(path))(c) {
            let none = Seq::<FeedRow>::empty();
            none.lemma_filter_push(row, pred);
            assert(none.push(row) =~= seq![row]);
            assert(none.filter(pred) =~= none);
            assert(seq![row].filter(pred) =~= if pred(row) {
                seq![row]
            } else {
                Seq::<FeedRow>::empty()
            });
            Seq::filter_distributes_over_add(seq![row], before, pred);
            assert(s.feed(s.on_path(path), n) =~= seq![row] + before);
            assert(t.feed(t.on_path(path), n) =~= (seq![row] + before).filter(pred));
        }
    }
}

/// A comment that its author deletes is gone from the comments of every
/// chapter, while every other comment stays in its place; a second
/// delete of it is refused and changes nothing.
pub proof fn law_delete_once(s: State, comment_id: i64, token: Seq<char>, path: Seq<char>)
    requires
        s.wf(),
        s.delete_ok(comment_id, token),
    ensures
        !s.delete(comment_id, token).delete_ok(comment_id, token),
        s.delete(comment_id, token).delete(comment_id, token) == s.delete(comment_id, token),
        s.delete(comment_id, token).chapter_comments(path) == s.chapter_comments(path).filter(
            other_than(comment_id),
        ),
        forall|j: int|
            0 <= j < s.delete(comment_id, token).chapter_comments(path).len() ==> (
            #[trigger] s.delete(comment_id, token).chapter_comments(path)[j]).comment.id
                != comment_id,
        forall|j: int|
            0 <= j < s.chapter_comments(path).len() && (#[trigger] s.chapter_comments(
                path,
            )[j]).comment.id != comment_id ==> s.delete(comment_id, token).chapter_comments(
                path,
            ).contains(s.chapter_comments(path)[j]),
{
    let t = s.delete(comment_id, token);
    s.lemma_delete_wf(comment_id, token);
    let gone = s.comment_index(comment_id);
    assert(s.comment_at(comment_id, gone));
    assert(t.comment_at(comment_id, gone));
    t.lemma_comment_found(comment_id, gone);
    lemma_feed_after_delete(s, comment_id, token, path, s.comments.len() as int);
    let before = s.chapter_comments(path);
    let pred = other_than(comment_id);
    assert forall|j: int| 0 <= j < before.filter(pred).len() implies (#[trigger] before.filter(
        pred,
    )[j]).comment.id != comment_id by {
        before.lemma_filter_pred(pred, j);
    }
    assert forall|j: int| 0 <= j < before.len() && (#[trigger] before[j]).comment.id
        != comment_id implies before.filter(pred).contains(before[j]) by {
        before.lemma_filter_contains(pred, j);
    }
}

/// A rating from 1 to 5 followed by rating 0, by the same user for the same
/// candidate, leaves no row for the pair, and none among the votes that
/// the user is shown.
pub proof fn law_vote_withdrawn(s: State, token: Seq<char>, chapter_vote_id: i16, rating: i16)
    requires
        s.wf(),
        s.resolve(token).is_some(),
        1 <= rating <= 5,
        !s.vote_fault(token, chapter_vote_id, rating),
    ensures
        ({
            let user_id = s.users[s.resolve(token).unwrap()].id;
            let t = s.vote(token, chapter_vote_id, rating).vote(token, chapter_vote_id, 0);
            &&& s.vote(token, chapter_vote_id, rating).has_vote(user_id, chapter_vote_id)
            &&& !t.has_vote(user_id, chapter_vote_id)
            &&& forall|j: int|
                0 <= j < t.votes_of(token).len() ==> (#[trigger] t.votes_of(token)[j]).0
                    != chapter_vote_id
        }),
{
    let user_id = s.users[s.resolve(token).unwrap()].id;
    let m = s.vote(token, chapter_vote_id, rating);
    s.lemma_vote_wf(token, chapter_vote_id, rating);
    if s.has_vote(user_id, chapter_vote_id) {
        let i = s.vote_index(user_id, chapter_vote_id);
        assert(s.vote_at(user_id, chapter_vote_id, i));
        assert(m.vote_at(user_id, chapter_vote_id, i));
    } else {
        assert(m.vote_at(user_id, chapter_vote_id, s.votes.len() as int));
    }
    assert(m.has_vote(user_id, chapter_vote_id));
    let i = m.vote_index(user_id, chapter_vote_id);
    assert(m.vote_at(user_id, chapter_vote_id, i));
    let u = s.resolve(token).unwrap();
    assert(s.token_at(token, u));
    assert(m.token_at(token, u));
    m.lemma_token_found(token, u);
    let t = m.vote(token, chapter_vote_id, 0);
    t.lemma_token_found(token, u);
    assert(t.votes == m.votes.remove(i));
    assert forall|k: int| !t.vote_at(user_id, chapter_vote_id, k) by {
        if t.vote_at(user_id, chapter_vote_id, k) {
            if k < i {
                assert(m.vote_at(user_id, chapter_vote_id, k));
                m.lemma_vote_found(user_id, chapter_vote_id, k);
            } else {
                assert(m.vote_at(user_id, chapter_vote_id, k + 1));
                m.lemma_vote_found(user_id, chapter_vote_id, k + 1);
            }
        }
    }
    let mine = t.votes.filter(State::vote_by(user_id));
    assert forall|j: int| 0 <= j < t.votes_of(token).len() implies (#[trigger] t.votes_of(
        token,
    )[j]).0 != chapter_vote_id by {
        t.votes.lemma_filter_pred(State::vote_by(user_id), j);
        assert(mine.contains(mine[j]));
        t.votes.lemma_filter_contains_rev(State::vote_by(user_id), mine[j]);
        let k = choose|k: int| 0 <= k < t.votes.len() && t.votes[k] == mine[j];
        assert(!t.vote_at(user_id, chapter_vote_id, k));
    }
}

/// Of votes that keep the invariant, those of one user are rated from 1
/// to 5, stand among the votes, and name no candidate twice.
pub proof fn lemma_own_votes(votes: Seq<WTCup2020Vote>, user_id: i64)
    requires
        forall|i: int| 0 <= i < votes.len() ==> 1 <= (#[trigger] votes[i]).rating <= 5,
        forall|i: int, j: int|
            0 <= i < j < votes.len() ==> !((#[trigger] votes[i]).user_id == (
            #[trigger] votes[j]).user_id && votes[i].chapter_vote_id == votes[j].chapter_vote_id),
    ensures
        forall|j: int|
            0 <= j < votes.filter(State::vote_by(user_id)).len() ==> {
                let v = #[trigger] votes.filter(State::vote_by(user_id))[j];
                v.user_id == user_id && 1 <= v.rating <= 5 && votes.contains(v)
            },
        forall|j: int, k: int|
            0 <= j < k < votes.filter(State::vote_by(user_id)).len() ==> (#[trigger] votes.filter(
                State::vote_by(user_id),
            )[j]).chapter_vote_id != (#[trigger] votes.filter(
                State::vote_by(user_id),
            )[k]).chapter_vote_id,
    decreases votes.len(),
{
    reveal(Seq::filter);
    let pred = State::vote_by(user_id);
    let mine = votes.filter(pred);
    if votes.len() > 0 {
        let rest = votes.drop_last();
        let last = votes.last();
        lemma_own_votes(rest, user_id);
        let before = rest.filter(pred);
        assert forall|j: int| 0 <= j < mine.len() implies ({
            let v = #[trigger] mine[j];
            v.user_id == user_id && 1 <= v.rating <= 5 && votes.contains(v)
        }) by {
            if j < before.len() {
                let v = before[j];
                assert(rest.contains(v));
                let i = choose|i: int| 0 <= i < rest.len() && rest[i] == v;
                assert(votes[i] == v);
            } else {
                assert(votes[votes.len() - 1] == last);
            }
        }
        assert forall|j: int, k: int| 0 <= j < k < mine.len() implies (#[trigger] mine[j]).chapter_vote_id
            != (#[trigger] mine[k]).chapter_vote_id by {
            if k >= before.len() {
                let v = before[j];
                assert(rest.contains(v));
                let i = choose|i: int| 0 <= i < rest.len() && rest[i] == v;
                assert(votes[i] == v);
                assert(votes[votes.len() - 1] == last);
            }
        }
    }
}

/// The votes that a user is shown are rated from 1 to 5 and name no
/// candidate twice.
pub proof fn law_votes_shown(s: State, token: Seq<char>)
    requires
        s.wf(),
    ensures
        forall|j: int|
            0 <= j < s.votes_of(token).len() ==> 1 <= (#[trigger] s.votes_of(token)[j]).1 <= 5,
        forall|j: int, k: int|
            0 <= j < k < s.votes_of(token).len() ==> (#[trigger] s.votes_of(token)[j]).0 != (
            #[trigger] s.votes_of(token)[k]).0,
{
    if s.resolve(token).is_some() {
        let user_id = s.users[s.resolve(token).unwrap()].id;
        lemma_own_votes(s.votes, user_id);
        let mine = s.votes.filter(State::vote_by(user_id));
        assert forall|j: int| 0 <= j < s.votes_of(token).len() implies 1 <= (
        #[trigger] s.votes_of(token)[j]).1 <= 5 by {
            assert(s.votes_of(token)[j].1 == mine[j].rating);
        }
        assert forall|j: int, k: int| 0 <= j < k < s.votes_of(token).len() implies (
        #[trigger] s.votes_of(token)[j]).0 != (#[trigger] s.votes_of(token)[k]).0 by {
            assert(s.votes_of(token)[j].0 == mine[j].chapter_vote_id);
            assert(s.votes_of(token)[k].0 == mine[k].chapter_vote_id);
        }
    }
}

/// Once a user has looked at their mentions, a session start reports no
/// unseen mention, provided every mention of the user is older than the
/// look.
pub proof fn law_mentions_seen(s: State, token: Seq<char>, now: i64)
    requires
        s.wf(),
        s.resolve(token).is_some(),
        forall|k: int|
            0 <= k < s.mentions.len() && (#[trigger] s.mentions[k]).mentioned_user_id
                == s.users[s.resolve(token).unwrap()].id ==> s.mentions[k].timestamp < now,
    ensures
        s.checked(token, now).init_row(token).is_some(),
        s.checked(token, now).init_row(token).unwrap().mentions == 0,
{
    let u = s.resolve(token).unwrap();
    let t = s.checked(token, now);
    s.lemma_checked_wf(token, now);
    assert(s.token_at(token, u));
    assert(t.token_at(token, u));
    t.lemma_token_found(token, u);
    let pred = t.unseen(t.users[u].id, now);
    lemma_none_kept(t.mentions, pred);
}

/// A filter that no item passes keeps nothing.
pub proof fn lemma_none_kept<T>(items: Seq<T>, pred: spec_fn(T) -> bool)
    requires
        forall|k: int| 0 <= k < items.len() ==> !pred(#[trigger] items[k]),
    ensures
        items.filter(pred).len() == 0,
    decreases items.len(),
{
    reveal(Seq::filter);
    if items.len() > 0 {
        lemma_none_kept(items.drop_last(), pred);
    }
}

/// The second page of the leaderboard of all time holds exactly the
/// chapters in places 51 to 100 of the ranking, where there are that
/// many; and in a ranking no chapter stands behind one with fewer
/// visits, nor behind one with as many and a higher id.
pub proof fn law_second_page(s: State)
    requires
        s.wf(),
        s.chapters.len() >= 100,
    ensures
        ranked(s.all_keys()).len() == s.chapters.len(),
        s.list_chapters(2) == ranked(s.all_keys()).subrange(50, 100).map_values(s.info_of()),
        forall|i: int, j: int|
            0 <= i < j < ranked(s.all_keys()).len() ==> key_leq(
                #[trigger] ranked(s.all_keys())[i],
                #[trigger] ranked(s.all_keys())[j],
            ),
{
    lemma_ranked(s.all_keys());
}

/// A comment of exactly 4096 bytes passes the check of its length, one
/// of 4097 bytes or more is too long, and one without text is too short.
pub proof fn law_comment_bounds(content: Seq<char>)
    ensures
        1 <= byte_len(content) <= 4096 <==> comment_verdict(content).is_none(),
        byte_len(content) >= 4097 <==> comment_verdict(content) == Some(ErrorCode::CommentTooLong),
        byte_len(content) == 0 <==> comment_verdict(content) == Some(ErrorCode::CommentTooShort),
{
}

} // verus!
