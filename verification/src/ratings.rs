//! Ratings of agent answers: which scores a vote admits, which messages
//! a rating may pair, and how a vote is stored.
use vstd::prelude::*;

use crate::api_errors::ApiError;
use crate::text::{owned, push_str, str_eq, trim, trim_seq};

verus! {

/// A thumbs-up or thumbs-down on an answer.
#[derive(Debug, Clone, Copy, PartialEq, Eq, Structural)]
pub enum ConversationRatingVote {
    Up,
    Down,
}

/// Which side of the conversation a message stands on.
#[derive(Debug, Clone, Copy, PartialEq, Eq, Structural)]
pub enum MessagePosition {
    Left,
    Right,
    Center,
    Pop,
}

/// The scores a vote admits: 6 to 10 for a like, 0 to 5 for a dislike.
pub open spec fn score_admitted(vote: ConversationRatingVote, score: i64) -> bool {
    match vote {
        ConversationRatingVote::Up => 6 <= score <= 10,
        ConversationRatingVote::Down => 0 <= score <= 5,
    }
}

/// Checks the score of a rating against its vote.
pub fn check_rating_score(vote: ConversationRatingVote, score: i64) -> (r: Result<(), ApiError>)
    ensures
        r is Ok <==> score_admitted(vote, score),
        r matches Err(e) ==> match vote {
            ConversationRatingVote::Up => e matches ApiError::BadRequest(m) && m@
                == "like score must be between 6 and 10"@,
            ConversationRatingVote::Down => e matches ApiError::BadRequest(m) && m@
                == "dislike score must be between 0 and 5"@,
        },
{
    match vote {
        ConversationRatingVote::Up => if 6 <= score && score <= 10 {
            Ok(())
        } else {
            Err(ApiError::BadRequest(owned("like score must be between 6 and 10")))
        },
        ConversationRatingVote::Down => if 0 <= score && score <= 5 {
            Ok(())
        } else {
            Err(ApiError::BadRequest(owned("dislike score must be between 0 and 5")))
        },
    }
}

/// A rating pairs a question, a right-side text message, with an answer,
/// a left-side text message; the question is checked first.
pub fn check_rating_messages(
    question_is_text: bool,
    question_position: Option<MessagePosition>,
    answer_is_text: bool,
    answer_position: Option<MessagePosition>,
) -> (r: Result<(), ApiError>)
    ensures
        !(question_is_text && question_position == Some(MessagePosition::Right)) ==> (r matches Err(
            ApiError::BadRequest(m),
        ) && m@ == "question_message_id must reference a right-side text message"@),
        (question_is_text && question_position == Some(MessagePosition::Right)) && !(answer_is_text
            && answer_position == Some(MessagePosition::Left)) ==> (r matches Err(ApiError::BadRequest(m))
            && m@ == "answer_message_id must reference a left-side text message"@),
        (question_is_text && question_position == Some(MessagePosition::Right)) && (answer_is_text
            && answer_position == Some(MessagePosition::Left)) ==> r is Ok,
{
    let q_right = match question_position {
        Some(MessagePosition::Right) => true,
        _ => false,
    };
    if !(question_is_text && q_right) {
        return Err(ApiError::BadRequest(owned("question_message_id must reference a right-side text message")));
    }
    let a_left = match answer_position {
        Some(MessagePosition::Left) => true,
        _ => false,
    };
    if !(answer_is_text && a_left) {
        return Err(ApiError::BadRequest(owned("answer_message_id must reference a left-side text message")));
    }
    Ok(())
}

/// How a vote is stored.
pub fn vote_text(vote: ConversationRatingVote) -> (r: &'static str)
    ensures
        r@ == (match vote {
            ConversationRatingVote::Up => "up"@,
            ConversationRatingVote::Down => "down"@,
        }),
{
    match vote {
        ConversationRatingVote::Up => "up",
        ConversationRatingVote::Down => "down",
    }
}

/// The vote a stored text stands for; any other text is an internal error.
pub fn stored_vote(text: &str) -> (r: Result<ConversationRatingVote, ApiError>)
    ensures
        text@ == "up"@ ==> r == Ok::<ConversationRatingVote, ApiError>(ConversationRatingVote::Up),
        text@ == "down"@ ==> r == Ok::<ConversationRatingVote, ApiError>(ConversationRatingVote::Down),
        text@ != "up"@ && text@ != "down"@ ==> (r matches Err(ApiError::Internal(m)) && m@
            == "invalid stored rating vote"@),
{
    proof {
        reveal_strlit("up");
        reveal_strlit("down");
        assert("up"@[0] != "down"@[0]);
        assert("up"@ != "down"@);
    }
    if str_eq(text, "up") {
        Ok(ConversationRatingVote::Up)
    } else if str_eq(text, "down") {
        Ok(ConversationRatingVote::Down)
    } else {
        Err(ApiError::Internal(owned("invalid stored rating vote")))
    }
}

/// The comment stored with a rating: trimmed, and none when blank.
pub fn rating_comment(comment: Option<&str>) -> (r: Option<String>)
    ensures
        match comment {
            Some(c) => if trim_seq(c@).len() > 0 {
                r matches Some(s) && s@ == trim_seq(c@)
            } else {
                r is None
            },
            None => r is None,
        },
{
    match comment {
        Some(c) => {
            let t = trim(c);
            if t.as_str().unicode_len() > 0 {
                Some(t)
            } else {
                None
            }
        },
        None => None,
    }
}

/// The id of a new rating: `rating_` and a short random id.
pub fn rating_id(short_id: &str) -> (r: String)
    ensures
        r@ == "rating_"@ + short_id@,
{
    let mut r = owned("rating_");
    push_str(&mut r, short_id);
    r
}

/// An approval check must name an action.
pub fn check_approval_action(action: &str) -> (r: Result<(), ApiError>)
    ensures
        r is Ok <==> trim_seq(action@).len() > 0,
        r matches Err(e) ==> (e matches ApiError::BadRequest(m) && m@ == "action must not be empty"@),
{
    let t = trim(action);
    if t.as_str().unicode_len() == 0 {
        Err(ApiError::BadRequest(owned("action must not be empty")))
    } else {
        Ok(())
    }
}

// ---------------------------------------------------------------------------
// Submitting a rating
// ---------------------------------------------------------------------------

/// What a rating needs to know of a message.
#[derive(Debug, Clone, Copy, PartialEq, Eq, Structural)]
pub struct RatedMessage {
    pub is_text: bool,
    pub position: Option<MessagePosition>,
}

/// Where the submission of a rating stands.
#[derive(Debug, Clone, Copy, PartialEq, Eq, Structural)]
pub enum RatingState {
    /// The conversation is being looked up for the user.
    CheckingConversation,
    /// The question message is being loaded.
    LoadingQuestion,
    /// The answer message is being loaded; the question is known.
    LoadingAnswer(RatedMessage),
    /// The rating is being written.
    Saving,
    /// The submission is over.
    Finished,
}

/// What the outside work of the last action gave.
#[derive(Debug)]
pub enum RatingEvent {
    ConversationChecked(Result<(), ApiError>),
    QuestionLoaded(Result<RatedMessage, ApiError>),
    AnswerLoaded(Result<RatedMessage, ApiError>),
    /// The stored vote text of the written row.
    Saved(Result<String, ApiError>),
}

/// The outside work to do next.
#[derive(Debug)]
pub enum RatingAction {
    LoadQuestion,
    LoadAnswer,
    /// Write the rating (its vote as [`vote_text`], its comment as
    /// [`rating_comment`], a new id as [`rating_id`]).
    Save,
    /// Answer with the rating as stored, with this vote.
    Respond(ConversationRatingVote),
    /// Answer with this error.
    Fail(ApiError),
}

/// Whether `event` answers the action a submission in `state` asked for.
pub open spec fn rating_event_fits(state: RatingState, event: RatingEvent) -> bool {
    match state {
        RatingState::CheckingConversation => event is ConversationChecked,
        RatingState::LoadingQuestion => event is QuestionLoaded,
        RatingState::LoadingAnswer(_) => event is AnswerLoaded,
        RatingState::Saving => event is Saved,
        RatingState::Finished => false,
    }
}

/// Whether a message may be the question of a rating.
pub open spec fn is_question(m: RatedMessage) -> bool {
    m.is_text && m.position == Some(MessagePosition::Right)
}

/// Whether a message may be the answer of a rating.
pub open spec fn is_answer(m: RatedMessage) -> bool {
    m.is_text && m.position == Some(MessagePosition::Left)
}

/// One step of submitting a rating with `vote` and `score`: the
/// conversation must exist for the user, the score must suit the vote, the
/// question must be a right-side and the answer a left-side text message;
/// the written row's stored vote is read back. Each failure ends the
/// submission with its error.
pub fn rating_step(state: RatingState, event: RatingEvent, vote: ConversationRatingVote, score: i64) -> (r: (
    RatingState,
    RatingAction,
))
    requires
        rating_event_fits(state, event),
    ensures
        match (state, event) {
            (RatingState::CheckingConversation, RatingEvent::ConversationChecked(c)) => match c {
                Err(e) => r.0 == RatingState::Finished && r.1 == RatingAction::Fail(e),
                Ok(()) => if score_admitted(vote, score) {
                    r.0 == RatingState::LoadingQuestion && r.1 is LoadQuestion
                } else {
                    r.0 == RatingState::Finished && (r.1 matches RatingAction::Fail(ApiError::BadRequest(m)) && m@
                        == (match vote {
                        ConversationRatingVote::Up => "like score must be between 6 and 10"@,
                        ConversationRatingVote::Down => "dislike score must be between 0 and 5"@,
                    }))
                },
            },
            (RatingState::LoadingQuestion, RatingEvent::QuestionLoaded(q)) => match q {
                Err(e) => r.0 == RatingState::Finished && r.1 == RatingAction::Fail(e),
                Ok(m) => r.0 == RatingState::LoadingAnswer(m) && r.1 is LoadAnswer,
            },
            (RatingState::LoadingAnswer(q), RatingEvent::AnswerLoaded(a)) => match a {
                Err(e) => r.0 == RatingState::Finished && r.1 == RatingAction::Fail(e),
                Ok(m) => if !is_question(q) {
                    r.0 == RatingState::Finished && (r.1 matches RatingAction::Fail(ApiError::BadRequest(t)) && t@
                        == "question_message_id must reference a right-side text message"@)
                } else if !is_answer(m) {
                    r.0 == RatingState::Finished && (r.1 matches RatingAction::Fail(ApiError::BadRequest(t)) && t@
                        == "answer_message_id must reference a left-side text message"@)
                } else {
                    r.0 == RatingState::Saving && r.1 is Save
                },
            },
            (RatingState::Saving, RatingEvent::Saved(s)) => r.0 == RatingState::Finished && match s {
                Err(e) => r.1 == RatingAction::Fail(e),
                Ok(text) => if text@ == "up"@ {
                    r.1 == RatingAction::Respond(ConversationRatingVote::Up)
                } else if text@ == "down"@ {
                    r.1 == RatingAction::Respond(ConversationRatingVote::Down)
                } else {
                    r.1 matches RatingAction::Fail(ApiError::Internal(t)) && t@ == "invalid stored rating vote"@
                },
            },
            _ => false,
        },
{
    match state {
        RatingState::CheckingConversation => match event {
            RatingEvent::ConversationChecked(c) => match c {
                Err(e) => (RatingState::Finished, RatingAction::Fail(e)),
                Ok(()) => match check_rating_score(vote, score) {
                    Ok(()) => (RatingState::LoadingQuestion, RatingAction::LoadQuestion),
                    Err(e) => (RatingState::Finished, RatingAction::Fail(e)),
                },
            },
            _ => (RatingState::Finished, RatingAction::LoadQuestion),
        },
        RatingState::LoadingQuestion => match event {
            RatingEvent::QuestionLoaded(q) => match q {
                Err(e) => (RatingState::Finished, RatingAction::Fail(e)),
                Ok(m) => (RatingState::LoadingAnswer(m), RatingAction::LoadAnswer),
            },
            _ => (RatingState::Finished, RatingAction::LoadQuestion),
        },
        RatingState::LoadingAnswer(q) => match event {
            RatingEvent::AnswerLoaded(a) => match a {
                Err(e) => (RatingState::Finished, RatingAction::Fail(e)),
                Ok(m) => match check_rating_messages(q.is_text, q.position, m.is_text, m.position) {
                    Ok(()) => (RatingState::Saving, RatingAction::Save),
                    Err(e) => (RatingState::Finished, RatingAction::Fail(e)),
                },
            },
            _ => (RatingState::Finished, RatingAction::LoadQuestion),
        },
        RatingState::Saving => match event {
            RatingEvent::Saved(s) => match s {
                Err(e) => (RatingState::Finished, RatingAction::Fail(e)),
                Ok(text) => match stored_vote(text.as_str()) {
                    Ok(v) => (RatingState::Finished, RatingAction::Respond(v)),
                    Err(e) => (RatingState::Finished, RatingAction::Fail(e)),
                },
            },
            _ => (RatingState::Finished, RatingAction::LoadQuestion),
        },
        RatingState::Finished => (RatingState::Finished, RatingAction::LoadQuestion),
    }
}

} // verus!
