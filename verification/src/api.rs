//! The requests of the service: each checks its input, runs one operation
//! of the store, and wraps the outcome. The caller passes the current
//! time, in milliseconds since the epoch, where a request depends on it.

use vstd::prelude::*;
use crate::codes::APIResult;
use crate::codes::Empty;
use crate::codes::ErrorCode;
use crate::codes::Verdict;
use crate::error::Fault;
use crate::error::WTError;
use crate::foreign::regex_is_match;
use crate::mentions::extract_mentions;
use crate::mentions::mentions_of;
use crate::models::text_of;
use crate::ranking::TimeFrame;
use crate::state::State;
use crate::store::ChapterVisitInfo;
use crate::store::GetVotesSingleResponse;
use crate::store::InitResult;
use crate::store::RegisterResponse;
use crate::store::SingleCommentQueryResult;
use crate::store::Store;
use crate::store::ballots;
use crate::store::feed_rows;
use crate::store::info_rows;
use crate::validate::byte_len;
use crate::validate::comment_verdict;
use crate::validate::derive_user_name;
use crate::validate::display_name_verdict;
use crate::validate::email_pattern_text;
use crate::validate::email_verdict;
use crate::validate::generate_token;
use crate::validate::is_page_name;
use crate::validate::is_page_name_spec;
use crate::validate::is_token;
use crate::validate::is_token_spec;
use crate::validate::user_name_of;
use crate::validate::validate_comment;
use crate::validate::validate_display_name;
use crate::validate::validate_email;

verus! {

/// One yearly vote: the candidates that can be rated, by the range of
/// their ids, and the time during which votes are taken.
#[derive(Clone, Copy, Debug, PartialEq, Eq, Structural)]
pub struct VoteEvent {
    pub min_chapter_vote_id: i16,
    pub max_chapter_vote_id: i16,
    pub vote_start_timestamp: i64,
    pub vote_end_timestamp: i64,
}

impl VoteEvent {
    /// The cup of 2022: candidates 70 to 87, votes taken from the last
    /// day of 2022 for four weeks.
    pub fn wtcup_2022() -> (e: VoteEvent)
        ensures
            e == (VoteEvent {
                min_chapter_vote_id: 70,
                max_chapter_vote_id: 87,
                vote_start_timestamp: 1672498800000,
                vote_end_timestamp: 1674918000000,
            }),
    {
        VoteEvent {
            min_chapter_vote_id: 70,
            max_chapter_vote_id: 87,
            vote_start_timestamp: 1672498800000,
            vote_end_timestamp: 1674918000000,
        }
    }

    /// Votes are taken at this time.
    pub open spec fn is_open(self, now: i64) -> bool {
        self.vote_start_timestamp <= now <= self.vote_end_timestamp
    }

    /// A vote is admitted: in time, with a text of the shape of a token,
    /// for a candidate of the event, with a rating from 0 to 5.
    pub open spec fn admits(self, now: i64, token: Seq<char>, chapter_vote_id: i16, rating: i16) -> bool {
        &&& self.is_open(now)
        &&& is_token_spec(token)
        &&& self.min_chapter_vote_id <= chapter_vote_id <= self.max_chapter_vote_id
        &&& 0 <= rating <= 5
    }
}

/// What is wrong with a profile, before the store is asked: the display
/// name is judged first, then the e-mail address if there is one.
pub open spec fn profile_verdict(display_name: Seq<char>, email: Option<Seq<char>>) -> Option<
    ErrorCode,
> {
    if display_name_verdict(display_name).is_some() {
        display_name_verdict(display_name)
    } else if email.is_some() {
        email_verdict(
            byte_len(email.unwrap()),
            regex_is_match(email_pattern_text(), email.unwrap()),
        )
    } else {
        None
    }
}

fn validate_profile(display_name: &String, email: &Option<String>) -> (r: Option<ErrorCode>)
    ensures
        r == profile_verdict(display_name@, text_of(*email)),
{
    match validate_display_name(display_name.as_str()) {
        Some(code) => {
            return Some(code);
        },
        None => {},
    }
    match email {
        Some(address) => validate_email(address.as_str()),
        None => None,
    }
}

/// Counts a visit to the chapter whose path is the request's body. A
/// body that is no chapter path is refused, and nothing is written.
pub fn count_handler(store: &mut Store, content: &str, now: i64) -> (r: Result<
    APIResult<Empty>,
    WTError,
>)
    requires
        old(store).wf(),
    ensures
        final(store).wf(),
        final(store)@ == (if is_page_name_spec(content@) {
            old(store)@.record_visit(content@, now)
        } else {
            old(store)@
        }),
        match r {
            Ok(v) => v.verdict() == (if is_page_name_spec(content@) {
                Verdict::Success
            } else {
                Verdict::Forbidden
            }) && !(is_page_name_spec(content@) && old(store)@.visit_fault(content@)),
            Err(e) => is_page_name_spec(content@) && old(store)@.visit_fault(content@) && e
                == WTError::InternalError(Fault::IdsExhausted),
        },
{
    if !is_page_name(content) {
        return Ok(APIResult::Forbidden);
    }
    match store.count(content, now) {
        Ok(_) => Ok(APIResult::Success(Empty {})),
        Err(e) => Err(e),
    }
}

/// Page `page` of the leaderboard of all time.
pub fn chapter_all_handler(store: &Store, page: i32) -> (r: Result<ChapterVisitInfo, WTError>)
    requires
        store.wf(),
    ensures
        match r {
            Ok(rows) => page >= 1 && info_rows(rows@) == store@.list_chapters(page as int),
            Err(e) => page < 1 && e == WTError::InternalError(Fault::BadPage),
        },
{
    store.list_chapters(page)
}

/// Every chapter with its counter, unranked.
pub fn chapter_all_raw_handler(store: &Store) -> (rows: ChapterVisitInfo)
    requires
        store.wf(),
    ensures
        info_rows(rows@) == store@.list_all_chapters(),
{
    store.list_all_chapters()
}

/// Page `page` of the leaderboard of the last hour, day, week, month or
/// year before `now`.
pub fn chapter_recent_handler(store: &Store, page: i32, time_frame: TimeFrame, now: i64) -> (r:
    Result<ChapterVisitInfo, WTError>)
    requires
        store.wf(),
    ensures
        match r {
            Ok(rows) => page >= 1 && info_rows(rows@) == store@.list_recent_chapters(
                page as int,
                now - time_frame.milliseconds(),
            ),
            Err(e) => page < 1 && e == WTError::InternalError(Fault::BadPage),
        },
{
    store.list_recent_chapters(page, time_frame, now)
}

/// Starts a session: see [`Store::init`].
pub fn init_handler(store: &mut Store, token: &str, now: i64) -> (r: Option<InitResult>)
    requires
        old(store).wf(),
    ensures
        final(store).wf(),
        final(store)@ == old(store)@.checked(token@, now),
        match r {
            Some(v) => Some(v@) == old(store)@.init_row(token@),
            None => old(store)@.init_row(token@).is_none(),
        },
{
    store.init(token, now)
}

/// Registers a user under a token that the caller has drawn. The profile
/// is checked first, and a profile that fails is turned down with its
/// code before the store is asked. The user name is derived from the
/// display name.
pub fn register_with_token(
    store: &mut Store,
    token: String,
    display_name: String,
    email: Option<String>,
    now: i64,
) -> (r: Result<APIResult<RegisterResponse>, WTError>)
    requires
        old(store).wf(),
    ensures
        final(store).wf(),
        final(store)@ == (if profile_verdict(display_name@, text_of(email)).is_some() {
            old(store)@
        } else {
            old(store)@.register(
                token@,
                user_name_of(display_name@),
                display_name@,
                text_of(email),
                now,
            )
        }),
        match r {
            Ok(APIResult::Success(resp)) => {
                &&& profile_verdict(display_name@, text_of(email)).is_none()
                &&& old(store)@.register_verdict(
                    user_name_of(display_name@),
                    display_name@,
                    text_of(email),
                ).is_none()
                &&& !old(store)@.register_fault(
                    token@,
                    user_name_of(display_name@),
                    display_name@,
                    text_of(email),
                )
                &&& resp.token@ == token@
                &&& resp.user_name@ == user_name_of(display_name@)
            },
            Ok(APIResult::Error(code)) => if profile_verdict(display_name@, text_of(email)).is_some() {
                profile_verdict(display_name@, text_of(email)) == Some(code)
            } else {
                old(store)@.register_verdict(
                    user_name_of(display_name@),
                    display_name@,
                    text_of(email),
                ) == Some(code)
            },
            Ok(APIResult::Forbidden) => false,
            Err(e) => {
                &&& profile_verdict(display_name@, text_of(email)).is_none()
                &&& old(store)@.register_fault(
                    token@,
                    user_name_of(display_name@),
                    display_name@,
                    text_of(email),
                )
                &&& e == WTError::InternalError(
                    if old(store)@.token_known(token@) {
                        Fault::TokenCollision
                    } else {
                        Fault::IdsExhausted
                    },
                )
            },
        },
{
    match validate_profile(&display_name, &email) {
        Some(code) => {
            return Ok(APIResult::Error(code));
        },
        None => {},
    }
    let user_name = derive_user_name(display_name.as_str());
    store.register(token, user_name, display_name, email, now)
}

/// Whether a registration succeeds whatever token is drawn: the profile
/// passes its check and duplicates nothing, an id is left, and no user
/// holds a token that a draw could hit.
pub open spec fn registration_owed(
    s: State,
    display_name: Seq<char>,
    email: Option<Seq<char>>,
) -> bool {
    &&& profile_verdict(display_name, email).is_none()
    &&& s.register_verdict(user_name_of(display_name), display_name, email).is_none()
    &&& s.next_user_id() <= i64::MAX
    &&& forall|i: int| 0 <= i < s.users.len() ==> !is_token_spec((#[trigger] s.users[i]).token)
}

/// Registers a user under a freshly drawn token. Which token is drawn
/// cannot be said; whatever it is, the outcome is that of
/// [`register_with_token`] for it, and a success hands it back. The draw
/// can only fail by hitting a token that some user holds, so on a store
/// without one, the first registration among them, success is owed.
pub fn register_handler(store: &mut Store, display_name: String, email: Option<String>, now: i64) -> (r:
    Result<APIResult<RegisterResponse>, WTError>)
    requires
        old(store).wf(),
    ensures
        final(store).wf(),
        profile_verdict(display_name@, text_of(email)).is_some() ==> final(store)@ == old(store)@,
        match r {
            Ok(APIResult::Success(resp)) => {
                &&& is_token_spec(resp.token@)
                &&& resp.user_name@ == user_name_of(display_name@)
                &&& profile_verdict(display_name@, text_of(email)).is_none()
                &&& old(store)@.register_verdict(
                    user_name_of(display_name@),
                    display_name@,
                    text_of(email),
                ).is_none()
                &&& final(store)@ == old(store)@.register(
                    resp.token@,
                    user_name_of(display_name@),
                    display_name@,
                    text_of(email),
                    now,
                )
            },
            Ok(APIResult::Error(code)) => final(store)@ == old(store)@ && (if profile_verdict(
                display_name@,
                text_of(email),
            ).is_some() {
                profile_verdict(display_name@, text_of(email)) == Some(code)
            } else {
                old(store)@.register_verdict(
                    user_name_of(display_name@),
                    display_name@,
                    text_of(email),
                ) == Some(code)
            }),
            Ok(APIResult::Forbidden) => false,
            Err(e) => {
                &&& final(store)@ == old(store)@
                &&& profile_verdict(display_name@, text_of(email)).is_none()
                &&& old(store)@.register_verdict(
                    user_name_of(display_name@),
                    display_name@,
                    text_of(email),
                ).is_none()
                &&& (e == WTError::InternalError(Fault::TokenCollision) || (e
                    == WTError::InternalError(Fault::IdsExhausted) && old(store)@.next_user_id()
                    > i64::MAX))
            },
        },
        r == Err::<APIResult<RegisterResponse>, WTError>(
            WTError::InternalError(Fault::TokenCollision),
        ) ==> exists|i: int|
            0 <= i < old(store)@.users.len() && is_token_spec(
                (#[trigger] old(store)@.users[i]).token,
            ),
        registration_owed(old(store)@, display_name@, text_of(email)) ==> (match r {
            Ok(APIResult::Success(_)) => true,
            _ => false,
        }),
{
    let token = generate_token();
    proof {
        if store@.token_known(token@) {
            let i = store@.token_index(token@);
            assert(store@.token_at(token@, i));
            assert(is_token_spec(store@.users[i].token));
        }
    }
    register_with_token(store, token, display_name, email, now)
}

/// How a profile update ends: a profile that fails its check is turned
/// down with its code, then the store decides.
pub open spec fn update_profile_verdict(
    s: State,
    token: Seq<char>,
    display_name: Seq<char>,
    email: Option<Seq<char>>,
) -> Verdict {
    match profile_verdict(display_name, email) {
        Some(code) => Verdict::Error(code),
        None => s.update_verdict(token, display_name, email),
    }
}

/// Changes the display name and e-mail address of the user with this
/// token.
pub fn update_profile_handler(
    store: &mut Store,
    token: String,
    display_name: String,
    email: Option<String>,
) -> (r: Result<APIResult<Empty>, WTError>)
    requires
        old(store).wf(),
    ensures
        final(store).wf(),
        final(store)@ == (if profile_verdict(display_name@, text_of(email)).is_some() {
            old(store)@
        } else {
            old(store)@.update_profile(token@, display_name@, text_of(email))
        }),
        match r {
            Ok(v) => v.verdict() == update_profile_verdict(
                old(store)@,
                token@,
                display_name@,
                text_of(email),
            ),
            Err(_) => false,
        },
{
    match validate_profile(&display_name, &email) {
        Some(code) => {
            return Ok(APIResult::Error(code));
        },
        None => {},
    }
    store.update_profile(token, display_name, email)
}

/// Whether a comment gets as far as the store: its text has 1 to 4096
/// bytes, the token has the shape of one, and the path is a chapter path.
pub open spec fn comment_admitted(token: Seq<char>, relative_path: Seq<char>, content: Seq<char>) -> bool {
    &&& comment_verdict(content).is_none()
    &&& is_token_spec(token)
    &&& is_page_name_spec(relative_path)
}

/// How posting a comment ends, unless the store runs out of ids.
pub open spec fn send_verdict(
    s: State,
    token: Seq<char>,
    relative_path: Seq<char>,
    content: Seq<char>,
) -> Verdict {
    match comment_verdict(content) {
        Some(code) => Verdict::Error(code),
        None => if is_token_spec(token) && is_page_name_spec(relative_path) && s.resolve(
            token,
        ).is_some() {
            Verdict::Success
        } else {
            Verdict::Forbidden
        },
    }
}

/// Posts a comment. The length of the text is checked first, then the
/// shapes of token and path; then the comment is stored with a mention
/// for each user named in it, of which there are five at most.
pub fn send_handler(
    store: &mut Store,
    token: String,
    relative_path: String,
    content: String,
    now: i64,
) -> (r: Result<APIResult<Empty>, WTError>)
    requires
        old(store).wf(),
    ensures
        final(store).wf(),
        final(store)@ == (if comment_admitted(token@, relative_path@, content@) {
            old(store)@.send(token@, relative_path@, content@, now, mentions_of(content@))
        } else {
            old(store)@
        }),
        final(store)@.mentions.len() <= old(store)@.mentions.len() + 5,
        match r {
            Ok(v) => {
                &&& v.verdict() == send_verdict(old(store)@, token@, relative_path@, content@)
                &&& !(comment_admitted(token@, relative_path@, content@)
                    && old(store)@.send_fault(token@, relative_path@, mentions_of(content@)))
            },
            Err(e) => comment_admitted(token@, relative_path@, content@) && old(store)@.send_fault(
                token@,
                relative_path@,
                mentions_of(content@),
            ) && e == WTError::InternalError(Fault::IdsExhausted),
        },
{
    match validate_comment(content.as_str()) {
        Some(code) => {
            return Ok(APIResult::Error(code));
        },
        None => {},
    }
    if !is_token(token.as_str()) || !is_page_name(relative_path.as_str()) {
        return Ok(APIResult::Forbidden);
    }
    let mentioned = extract_mentions(content.as_str());
    proof {
        let s = old(store)@;
        let names = mentions_of(content@);
        s.lemma_with_chapter_wf(relative_path@);
        s.with_chapter(relative_path@).lemma_resolved_ids_len(names);
    }
    match store.send(token, relative_path, content, now, mentioned) {
        Ok(true) => Ok(APIResult::Success(Empty {})),
        Ok(false) => Ok(APIResult::Forbidden),
        Err(e) => Err(e),
    }
}

/// The comments on a chapter. A path that is no chapter path is refused.
pub fn get_chapter_handler(store: &Store, relative_path: String) -> (r: Result<
    APIResult<Vec<SingleCommentQueryResult>>,
    WTError,
>)
    requires
        store.wf(),
    ensures
        match r {
            Ok(APIResult::Success(rows)) => is_page_name_spec(relative_path@) && feed_rows(rows@)
                == store@.chapter_comments(relative_path@),
            Ok(APIResult::Forbidden) => !is_page_name_spec(relative_path@),
            _ => false,
        },
{
    if !is_page_name(relative_path.as_str()) {
        return Ok(APIResult::Forbidden);
    }
    match store.get_chapter_comments(relative_path) {
        Ok(rows) => Ok(APIResult::Success(rows)),
        Err(e) => Err(e),
    }
}

/// The 50 newest comments of the whole site.
pub fn get_recent_comments_handler(store: &Store) -> (r: Result<
    Vec<SingleCommentQueryResult>,
    WTError,
>)
    requires
        store.wf(),
    ensures
        match r {
            Ok(rows) => feed_rows(rows@) == store@.recent_comments(),
            Err(_) => false,
        },
{
    store.get_recent()
}

/// The store after a look at the mentions: a text that has not the shape
/// of a token changes nothing.
pub open spec fn mentions_checked(s: State, token: Seq<char>, now: i64) -> State {
    if is_token_spec(token) {
        s.checked(token, now)
    } else {
        s
    }
}

/// The 50 newest comments that mention the user with this token; the
/// user has then looked at their mentions. A text that has not the shape
/// of a token is refused.
pub fn get_recent_mentioned_comments_handler(store: &mut Store, token: String, now: i64) -> (r:
    Result<APIResult<Vec<SingleCommentQueryResult>>, WTError>)
    requires
        old(store).wf(),
    ensures
        final(store).wf(),
        final(store)@ == mentions_checked(old(store)@, token@, now),
        match r {
            Ok(APIResult::Success(rows)) => is_token_spec(token@) && feed_rows(rows@)
                == final(store)@.recent_mentioned(token@),
            Ok(APIResult::Forbidden) => !is_token_spec(token@),
            _ => false,
        },
{
    if !is_token(token.as_str()) {
        return Ok(APIResult::Forbidden);
    }
    match store.get_recent_mentioned(token, now) {
        Ok(rows) => Ok(APIResult::Success(rows)),
        Err(e) => Err(e),
    }
}

/// Deletes a comment of the caller's. Refused unless the token resolves
/// to the comment's author and the comment is there and not yet deleted.
pub fn delete_handler(store: &mut Store, comment_id: i64, token: String) -> (r: Result<
    APIResult<Empty>,
    WTError,
>)
    requires
        old(store).wf(),
    ensures
        final(store).wf(),
        final(store)@ == old(store)@.delete(comment_id, token@),
        match r {
            Ok(v) => v.verdict() == (if old(store)@.delete_ok(comment_id, token@) {
                Verdict::Success
            } else {
                Verdict::Forbidden
            }),
            Err(_) => false,
        },
{
    if !is_token(token.as_str()) {
        return Ok(APIResult::Forbidden);
    }
    match store.delete(comment_id, token) {
        Ok(true) => Ok(APIResult::Success(Empty {})),
        Ok(false) => Ok(APIResult::Forbidden),
        Err(e) => Err(e),
    }
}

/// Takes a vote at time `now`. Outside the time of the event, or with a
/// token, candidate or rating that the event does not admit, the vote is
/// refused and the store stays as it is.
pub fn vote_handler(
    store: &mut Store,
    event: VoteEvent,
    token: String,
    chapter_vote_id: i16,
    rating: i16,
    now: i64,
) -> (r: Result<APIResult<Empty>, WTError>)
    requires
        old(store).wf(),
    ensures
        final(store).wf(),
        final(store)@ == (if event.admits(now, token@, chapter_vote_id, rating) {
            old(store)@.vote(token@, chapter_vote_id, rating)
        } else {
            old(store)@
        }),
        !event.is_open(now) ==> final(store)@ == old(store)@,
        match r {
            Ok(v) => {
                &&& v.verdict() == (if event.admits(now, token@, chapter_vote_id, rating)
                    && old(store)@.vote_ok(token@, chapter_vote_id, rating) {
                    Verdict::Success
                } else {
                    Verdict::Forbidden
                })
                &&& !(event.admits(now, token@, chapter_vote_id, rating)
                    && old(store)@.vote_fault(token@, chapter_vote_id, rating))
            },
            Err(e) => event.admits(now, token@, chapter_vote_id, rating) && old(store)@.vote_fault(
                token@,
                chapter_vote_id,
                rating,
            ) && e == WTError::InternalError(Fault::IdsExhausted),
        },
{
    if now > event.vote_end_timestamp || now < event.vote_start_timestamp || !is_token(
        token.as_str(),
    ) || chapter_vote_id < event.min_chapter_vote_id || chapter_vote_id
        > event.max_chapter_vote_id || rating < 0 || rating > 5 {
        return Ok(APIResult::Forbidden);
    }
    match store.vote(token, chapter_vote_id, rating) {
        Ok(true) => Ok(APIResult::Success(Empty {})),
        Ok(false) => Ok(APIResult::Forbidden),
        Err(e) => Err(e),
    }
}

/// The caller's votes. Refused once the event is over, and for a text
/// that has not the shape of a token.
pub fn get_votes_handler(store: &Store, event: VoteEvent, token: String, now: i64) -> (r: Result<
    APIResult<Vec<GetVotesSingleResponse>>,
    WTError,
>)
    requires
        store.wf(),
    ensures
        match r {
            Ok(APIResult::Success(rows)) => now <= event.vote_end_timestamp && is_token_spec(token@)
                && ballots(rows@) == store@.votes_of(token@),
            Ok(APIResult::Forbidden) => now > event.vote_end_timestamp || !is_token_spec(token@),
            _ => false,
        },
{
    if now > event.vote_end_timestamp || !is_token(token.as_str()) {
        return Ok(APIResult::Forbidden);
    }
    match store.get_votes(token) {
        Ok(rows) => Ok(APIResult::Success(rows)),
        Err(e) => Err(e),
    }
}

} // verus!
