use chat_loop::config::ChatConfig;
use chat_loop::conversation::{Conversation, InferenceRequest, InputEvent, LoopAction, LoopState};
use chat_loop::filter::{filter_tokens, Feedback};
use chat_loop::seeding::{accept_seed_token, echo_seed_tokens};
use chat_loop::stats::{InferenceStats, Span};

fn turn(feed_ms: u64, prompt: usize, predict_ms: u64, predicted: usize) -> InferenceStats {
    InferenceStats {
        feed_prompt_duration: Span::from_millis(feed_ms),
        prompt_tokens: prompt,
        predict_duration: Span::from_millis(predict_ms),
        predict_tokens: predicted,
    }
}

fn fresh() -> Conversation {
    Conversation::new(ChatConfig::new("model.bin"))
}

#[test]
fn scenario_first_turn() {
    let mut config = ChatConfig::new("model.bin");
    config.persona = "A chat between a human and an assistant.".to_string();
    config.character_name = "### Assistant".to_string();
    config.greeting = "Hello - How may I help you today?".to_string();
    assert_eq!(config.history(), "### Assistant: Hello - How may I help you today?");
    let mut conversation = Conversation::new(config);
    assert_eq!(
        conversation.seed_prompt(),
        "A chat between a human and an assistant.\n### Assistant: Hello - How may I help you today?"
    );
    let action = conversation.on_input(InputEvent::Line("hi".to_string()));
    assert_eq!(
        action,
        LoopAction::Infer(InferenceRequest {
            prompt: "### Human: hi\n### Assistant:".to_string(),
            play_back_previous_tokens: false,
            maximum_token_count: None,
        })
    );
    assert_eq!(conversation.state(), LoopState::AwaitingInput);

    let generated = [" Hello", "!", " How are", " you?\n", "###", " Human", ":", " I am", " fine"];
    let mut filter = conversation.turn_filter();
    let mut shown = Vec::new();
    for token in generated {
        let out = filter.push(token);
        if !out.text.is_empty() {
            shown.push(out.text);
        }
        if out.feedback == Feedback::Halt {
            break;
        }
    }
    assert_eq!(shown, vec![" Hello", "!", " How are", " you?\n"]);
    assert!(filter.is_halted());
    assert_eq!(filter.finish(), "");
}

#[test]
fn end_of_stream_terminates_with_one_report() {
    let mut conversation = fresh();
    conversation.record_turn(&turn(10, 4, 200, 31));
    let action = conversation.on_input(InputEvent::EndOfStream);
    assert_eq!(action, LoopAction::Report(turn(10, 4, 200, 31)));
    assert_eq!(conversation.state(), LoopState::Terminated);
}

#[test]
fn interrupt_terminates_with_one_report() {
    let mut conversation = fresh();
    let action = conversation.on_input(InputEvent::Interrupted);
    assert_eq!(action, LoopAction::Report(InferenceStats::new()));
    assert_eq!(conversation.state(), LoopState::Terminated);
}

#[test]
fn exactly_one_report_whatever_comes_before_and_after() {
    let events = || {
        vec![
            InputEvent::Line("one".to_string()),
            InputEvent::ReadError("bad bytes".to_string()),
            InputEvent::Line("two".to_string()),
            InputEvent::Interrupted,
            InputEvent::Line("three".to_string()),
            InputEvent::EndOfStream,
            InputEvent::Interrupted,
        ]
    };
    for first_signal in [InputEvent::EndOfStream, InputEvent::Interrupted] {
        for position in 0..4 {
            let mut conversation = fresh();
            let mut sequence = events();
            sequence.insert(position, first_signal_copy(&first_signal));
            let mut reports = 0;
            for (i, event) in sequence.into_iter().enumerate() {
                let action = conversation.on_input(event);
                if matches!(action, LoopAction::Report(_)) {
                    reports += 1;
                    assert_eq!(i, position);
                }
                if i >= position {
                    assert_eq!(conversation.state(), LoopState::Terminated);
                } else {
                    assert_eq!(conversation.state(), LoopState::AwaitingInput);
                }
            }
            assert_eq!(reports, 1);
        }
    }
}

fn first_signal_copy(event: &InputEvent) -> InputEvent {
    match event {
        InputEvent::Interrupted => InputEvent::Interrupted,
        _ => InputEvent::EndOfStream,
    }
}

#[test]
fn no_report_without_an_end_signal() {
    let mut conversation = fresh();
    for i in 0..20 {
        let event = if i % 3 == 0 {
            InputEvent::ReadError("again".to_string())
        } else {
            InputEvent::Line("more".to_string())
        };
        let action = conversation.on_input(event);
        assert!(!matches!(action, LoopAction::Report(_)));
        assert_eq!(conversation.state(), LoopState::AwaitingInput);
    }
}

#[test]
fn read_error_is_shown_and_the_loop_goes_on() {
    let mut conversation = fresh();
    let action = conversation.on_input(InputEvent::ReadError("stream did not contain valid UTF-8".to_string()));
    assert_eq!(action, LoopAction::ShowError("stream did not contain valid UTF-8".to_string()));
    assert_eq!(conversation.state(), LoopState::AwaitingInput);
    let next = conversation.on_input(InputEvent::Line("still here".to_string()));
    assert!(matches!(next, LoopAction::Infer(_)));
}

#[test]
fn terminated_loop_ignores_everything() {
    let mut conversation = fresh();
    conversation.on_input(InputEvent::EndOfStream);
    assert_eq!(conversation.on_input(InputEvent::Line("late".to_string())), LoopAction::Ignore);
    assert_eq!(conversation.on_input(InputEvent::ReadError("late".to_string())), LoopAction::Ignore);
    assert_eq!(conversation.on_input(InputEvent::EndOfStream), LoopAction::Ignore);
    conversation.record_turn(&turn(1, 1, 1, 1));
    assert_eq!(conversation.stats(), InferenceStats::new());
}

#[test]
fn turns_add_up_in_the_report() {
    let mut conversation = fresh();
    conversation.on_input(InputEvent::Line("a".to_string()));
    conversation.record_turn(&turn(10, 4, 200, 31));
    conversation.on_input(InputEvent::Line("b".to_string()));
    conversation.record_turn(&turn(7, 3, 150, usize::MAX));
    assert_eq!(conversation.stats(), turn(17, 7, 350, usize::MAX));
    conversation.on_input(InputEvent::Line("c".to_string()));
    conversation.record_turn(&turn(1, 1, 1, 1));
    let action = conversation.on_input(InputEvent::EndOfStream);
    assert_eq!(action, LoopAction::Report(turn(18, 8, 351, usize::MAX)));
}

#[test]
fn turn_filter_uses_the_configured_stop_sequence() {
    let mut config = ChatConfig::new("model.bin");
    config.stop_sequence = "### Assistant:".to_string();
    let conversation = Conversation::new(config);
    let mut filter = conversation.turn_filter();
    let out = filter.push("ok\n### Human: and\n### Assistant: so");
    assert_eq!(out.text, "ok\n### Human: and\n");
    assert_eq!(out.feedback, Feedback::Halt);
    assert_eq!(conversation.input_prompt(), "### Human: ");
}

#[test]
fn seed_tokens_are_shown_whole_and_feeding_goes_on() {
    for token in ["A", " chat", "", "### Human:", "\n"] {
        let out = accept_seed_token(token);
        assert_eq!(out.text, token);
        assert_eq!(out.feedback, Feedback::Continue);
    }
}

#[test]
fn seeding_twice_shows_the_same() {
    let seed = fresh().seed_prompt();
    assert_eq!(seed, fresh().seed_prompt());
    let tokens: Vec<String> = seed.split_inclusive(' ').map(|t| t.to_string()).collect();
    let first = echo_seed_tokens(&tokens);
    let second = echo_seed_tokens(&tokens);
    assert_eq!(first, second);
    assert_eq!(first, seed);
}

#[test]
fn seeding_is_not_filtered() {
    let tokens = vec!["### Human:".to_string(), " x".to_string()];
    assert_eq!(echo_seed_tokens(&tokens), "### Human: x");
    assert_eq!(filter_tokens("### Human:", &tokens), "");
}
