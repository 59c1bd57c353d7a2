use chat_loop::stats::{InferenceStats, Span};

fn stats(feed_ms: u64, prompt: usize, predict_ms: u64, predicted: usize) -> InferenceStats {
    InferenceStats {
        feed_prompt_duration: Span::from_millis(feed_ms),
        prompt_tokens: prompt,
        predict_duration: Span::from_millis(predict_ms),
        predict_tokens: predicted,
    }
}

#[test]
fn new_stats_are_zero() {
    let s = InferenceStats::new();
    assert_eq!(s.feed_prompt_duration, Span::zero());
    assert_eq!(s.prompt_tokens, 0);
    assert_eq!(s.predict_duration, Span::zero());
    assert_eq!(s.predict_tokens, 0);
    assert_eq!(s, InferenceStats::default());
}

#[test]
fn absorb_adds_each_counter() {
    let mut total = stats(120, 14, 3_400, 57);
    total.absorb(&stats(30, 6, 1_100, 20));
    assert_eq!(total, stats(150, 20, 4_500, 77));
}

#[test]
fn counters_never_decrease_over_turns() {
    let turns = [
        stats(5, 1, 10, 2),
        stats(0, 0, 0, 0),
        stats(u64::MAX, usize::MAX - 3, 7, 9),
        stats(u64::MAX, 2, u64::MAX, usize::MAX),
        stats(1, 5, 1, 1),
    ];
    let mut total = InferenceStats::new();
    for turn in turns.iter() {
        let before = total;
        total.absorb(turn);
        assert!(before.feed_prompt_duration.secs() <= total.feed_prompt_duration.secs());
        assert!(before.feed_prompt_duration.as_millis() <= total.feed_prompt_duration.as_millis());
        assert!(before.prompt_tokens <= total.prompt_tokens);
        assert!(before.predict_duration.as_millis() <= total.predict_duration.as_millis());
        assert!(before.predict_tokens <= total.predict_tokens);
    }
    assert_eq!(total.prompt_tokens, usize::MAX);
    assert_eq!(total.predict_tokens, usize::MAX);
}

#[test]
fn token_counts_saturate() {
    let mut total = stats(0, usize::MAX - 1, 0, usize::MAX);
    total.absorb(&stats(0, 5, 0, 1));
    assert_eq!(total.prompt_tokens, usize::MAX);
    assert_eq!(total.predict_tokens, usize::MAX);
}

#[test]
fn durations_saturate_at_the_longest_span() {
    let nearly = Span::new(u64::MAX, 999_999_998);
    assert_eq!(nearly.saturating_add(Span::new(0, 1)), Span::longest());
    assert_eq!(nearly.saturating_add(Span::new(0, 2)), Span::longest());
    assert_eq!(nearly.saturating_add(Span::new(5, 0)), Span::longest());
    assert_eq!(Span::longest().saturating_add(Span::longest()), Span::longest());
    let mut total = InferenceStats::new();
    total.feed_prompt_duration = nearly;
    total.predict_duration = Span::longest();
    total.absorb(&stats(1, 0, 1, 0));
    assert_eq!(total.feed_prompt_duration, Span::longest());
    assert_eq!(total.predict_duration, Span::longest());
}

#[test]
fn span_addition_carries_nanoseconds() {
    let sum = Span::new(1, 600_000_000).saturating_add(Span::new(2, 700_000_000));
    assert_eq!(sum.secs(), 4);
    assert_eq!(sum.subsec_nanos(), 300_000_000);
    assert_eq!(sum, Span::new(4, 300_000_000));
}

#[test]
fn span_new_carries_and_saturates() {
    let carried = Span::new(7, 3_250_000_000);
    assert_eq!(carried.secs(), 10);
    assert_eq!(carried.subsec_nanos(), 250_000_000);
    assert_eq!(Span::new(u64::MAX, 1_000_000_000), Span::longest());
    assert_eq!(Span::new(u64::MAX - 4, u32::MAX), Span::new(u64::MAX, 294_967_295));
    assert_eq!(Span::longest().secs(), u64::MAX);
    assert_eq!(Span::longest().subsec_nanos(), 999_999_999);
}

#[test]
fn span_in_milliseconds() {
    assert_eq!(Span::from_millis(1_234).secs(), 1);
    assert_eq!(Span::from_millis(1_234).subsec_nanos(), 234_000_000);
    assert_eq!(Span::from_millis(u64::MAX).as_millis(), u64::MAX as u128);
    assert_eq!(Span::new(3, 999_999_999).as_millis(), 3_999);
    assert_eq!(Span::longest().as_millis(), u64::MAX as u128 * 1000 + 999);
}

#[test]
fn report_has_a_line_for_each_counter() {
    let s = stats(1_520, 37, 98_004, 1_203);
    assert_eq!(
        s.report(),
        "feed_prompt_duration: 1520ms\nprompt_tokens: 37\npredict_duration: 98004ms\npredict_tokens: 1203"
    );
}

#[test]
fn report_of_zero_stats() {
    assert_eq!(
        InferenceStats::new().report(),
        "feed_prompt_duration: 0ms\nprompt_tokens: 0\npredict_duration: 0ms\npredict_tokens: 0"
    );
}

#[test]
fn report_drops_fractions_of_a_millisecond() {
    let mut s = InferenceStats::new();
    s.feed_prompt_duration = Span::new(0, 1_999_999);
    s.predict_duration = Span::new(2, 999_999);
    assert_eq!(
        s.report(),
        "feed_prompt_duration: 1ms\nprompt_tokens: 0\npredict_duration: 2000ms\npredict_tokens: 0"
    );
}
