//! The mental-math practice history: the most recent answers, capped.

use vstd::prelude::*;
use crate::text::{push_char, push_decimal, decimal};

verus! {

/// The history keeps at most this many answers, dropping the oldest.
pub const MENTAL_MATH_HISTORY_LIMIT: usize = 1000;

/// One answered question.
#[derive(Clone, Debug, PartialEq, Eq)]
pub struct MentalMathHistoryItem {
    pub id: String,
    pub timestamp: String,
    pub mode_key: String,
    pub mode_label: String,
    pub question_text: String,
    pub correct_answer: String,
    pub user_answer: String,
    pub is_correct: bool,
    pub elapsed_ms: u32,
    pub weakness_focus_enabled: bool,
    pub from_weakness_focus: bool,
    pub features: Vec<String>,
}

/// The answers kept, oldest first.
#[derive(Clone, Debug, PartialEq, Eq)]
pub struct MentalMathHistory {
    pub items: Vec<MentalMathHistoryItem>,
}

/// One answer as the practice page submits it.
#[derive(Clone, Debug, PartialEq, Eq)]
pub struct MentalMathHistorySavePayload {
    pub mode_key: String,
    pub mode_label: String,
    pub question_text: String,
    pub correct_answer: String,
    pub user_answer: String,
    pub is_correct: bool,
    pub elapsed_ms: u32,
    pub weakness_focus_enabled: bool,
    pub from_weakness_focus: bool,
    pub features: Vec<String>,
}

/// An empty history.
pub fn default_mental_math_history() -> (history: MentalMathHistory)
    ensures
        history.items@.len() == 0,
{
    MentalMathHistory { items: Vec::new() }
}

/// The last `n` elements of `s` (all of them when there are fewer).
pub open spec fn keep_last<T>(s: Seq<T>, n: nat) -> Seq<T> {
    if s.len() > n {
        s.subrange(s.len() - n, s.len() as int)
    } else {
        s
    }
}

/// Drops the oldest answers beyond the limit (as loading does).
pub fn cap_mental_math_history(history: &mut MentalMathHistory)
    ensures
        final(history).items@ == keep_last(old(history).items@, MENTAL_MATH_HISTORY_LIMIT as nat),
{
    if history.items.len() > MENTAL_MATH_HISTORY_LIMIT {
        let keep_from = history.items.len() - MENTAL_MATH_HISTORY_LIMIT;
        let kept = history.items.split_off(keep_from);
        history.items = kept;
    }
}

/// Whether `item` records `payload`, with the given id and time stamp.
pub open spec fn records_payload(
    item: MentalMathHistoryItem,
    payload: MentalMathHistorySavePayload,
    id: Seq<char>,
    timestamp: Seq<char>,
) -> bool {
    &&& item.id@ == id
    &&& item.timestamp@ == timestamp
    &&& item.mode_key == payload.mode_key
    &&& item.mode_label == payload.mode_label
    &&& item.question_text == payload.question_text
    &&& item.correct_answer == payload.correct_answer
    &&& item.user_answer == payload.user_answer
    &&& item.is_correct == payload.is_correct
    &&& item.elapsed_ms == payload.elapsed_ms
    &&& item.weakness_focus_enabled == payload.weakness_focus_enabled
    &&& item.from_weakness_focus == payload.from_weakness_focus
    &&& item.features == payload.features
}

/// Appends an answer (the bookkeeping of `mental_math_history_append`): its
/// id is `id_stamp`, a dash and its position counted from 1; then the
/// oldest answers beyond the limit are dropped. Returns the number kept.
pub fn append_mental_math_answer(
    history: &mut MentalMathHistory,
    payload: MentalMathHistorySavePayload,
    id_stamp: String,
    timestamp: String,
) -> (count: usize)
    requires
        old(history).items@.len() < usize::MAX,
    ensures
        final(history).items@.len() > 0,
        records_payload(
            final(history).items@.last(),
            payload,
            id_stamp@ + seq!['-'] + decimal((old(history).items@.len() + 1) as nat),
            timestamp@,
        ),
        final(history).items@ == keep_last(
            old(history).items@.push(final(history).items@.last()),
            MENTAL_MATH_HISTORY_LIMIT as nat,
        ),
        count == final(history).items@.len(),
        count <= MENTAL_MATH_HISTORY_LIMIT,
{
    let ghost expected_id = id_stamp@ + seq!['-'] + decimal((history.items@.len() + 1) as nat);
    let mut id = id_stamp;
    push_char(&mut id, '-');
    push_decimal(&mut id, (history.items.len() + 1) as u64);
    assert(id@ =~= expected_id);
    let MentalMathHistorySavePayload {
        mode_key,
        mode_label,
        question_text,
        correct_answer,
        user_answer,
        is_correct,
        elapsed_ms,
        weakness_focus_enabled,
        from_weakness_focus,
        features,
    } = payload;
    let item = MentalMathHistoryItem {
        id,
        timestamp,
        mode_key,
        mode_label,
        question_text,
        correct_answer,
        user_answer,
        is_correct,
        elapsed_ms,
        weakness_focus_enabled,
        from_weakness_focus,
        features,
    };
    history.items.push(item);
    cap_mental_math_history(history);
    assert(history.items@.last() == item);
    history.items.len()
}

} // verus!
