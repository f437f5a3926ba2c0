use moyu::mental_math::{
    append_mental_math_answer, cap_mental_math_history, default_mental_math_history,
    MentalMathHistorySavePayload, MENTAL_MATH_HISTORY_LIMIT,
};

fn answer(q: &str) -> MentalMathHistorySavePayload {
    MentalMathHistorySavePayload {
        mode_key: "add".to_string(),
        mode_label: "加法".to_string(),
        question_text: q.to_string(),
        correct_answer: "2".to_string(),
        user_answer: "2".to_string(),
        is_correct: true,
        elapsed_ms: 850,
        weakness_focus_enabled: false,
        from_weakness_focus: false,
        features: vec!["carry".to_string()],
    }
}

#[test]
fn answers_are_appended_with_numbered_ids() {
    let mut history = default_mental_math_history();
    assert_eq!(append_mental_math_answer(&mut history, answer("1+1"), "2024-01-02 03:04:05".to_string(), "2024-01-02 03:04:05".to_string()), 1);
    assert_eq!(append_mental_math_answer(&mut history, answer("1+2"), "S".to_string(), "T".to_string()), 2);
    assert_eq!(history.items[0].id, "2024-01-02 03:04:05-1");
    assert_eq!(history.items[1].id, "S-2");
    assert_eq!(history.items[1].timestamp, "T");
    assert_eq!(history.items[1].question_text, "1+2");
    assert_eq!(history.items[1].features, vec!["carry".to_string()]);
}

#[test]
fn history_keeps_the_latest_answers() {
    let mut history = default_mental_math_history();
    for i in 0..MENTAL_MATH_HISTORY_LIMIT + 5 {
        append_mental_math_answer(&mut history, answer(&format!("q{i}")), "s".to_string(), "t".to_string());
    }
    assert_eq!(history.items.len(), MENTAL_MATH_HISTORY_LIMIT);
    assert_eq!(history.items[0].question_text, "q5");
    assert_eq!(history.items.last().unwrap().id, format!("s-{}", MENTAL_MATH_HISTORY_LIMIT + 1));
}

#[test]
fn loading_caps_an_overlong_history() {
    let mut history = default_mental_math_history();
    for i in 0..MENTAL_MATH_HISTORY_LIMIT {
        append_mental_math_answer(&mut history, answer(&format!("q{i}")), "s".to_string(), "t".to_string());
    }
    let extra = history.items[0].clone();
    history.items.push(extra);
    cap_mental_math_history(&mut history);
    assert_eq!(history.items.len(), MENTAL_MATH_HISTORY_LIMIT);
    assert_eq!(history.items[0].question_text, "q1");
}
