use chat_loop::filter::{filter_tokens, Feedback, StopFilter};

fn strings(parts: &[&str]) -> Vec<String> {
    parts.iter().map(|p| p.to_string()).collect()
}

#[test]
fn stop_tag_inside_one_token_cuts_the_token() {
    let mut filter = StopFilter::new("### Human:");
    let out = filter.push("Sure.### Human: and more");
    assert_eq!(out.text, "Sure.");
    assert_eq!(out.feedback, Feedback::Halt);
    assert!(filter.is_halted());
}

#[test]
fn stop_tag_split_over_tokens_is_never_shown() {
    let mut filter = StopFilter::new("### Human:");
    let mut shown = String::new();
    let mut feedback = Vec::new();
    for token in ["Hi", " there", "\n##", "# Hu", "man", ":", " what"] {
        let out = filter.push(token);
        shown.push_str(&out.text);
        feedback.push(out.feedback);
    }
    assert_eq!(shown, "Hi there\n");
    assert_eq!(
        feedback,
        vec![
            Feedback::Continue,
            Feedback::Continue,
            Feedback::Continue,
            Feedback::Continue,
            Feedback::Continue,
            Feedback::Halt,
            Feedback::Halt,
        ]
    );
    assert_eq!(filter.finish(), "");
}

#[test]
fn partial_tag_is_shown_once_it_cannot_complete() {
    let mut filter = StopFilter::new("abc");
    let first = filter.push("xab");
    assert_eq!(first.text, "x");
    assert_eq!(first.feedback, Feedback::Continue);
    let second = filter.push("d");
    assert_eq!(second.text, "abd");
    assert_eq!(second.feedback, Feedback::Continue);
    assert_eq!(filter.finish(), "");
}

#[test]
fn tag_found_after_a_failed_partial_match() {
    let mut filter = StopFilter::new("aab");
    let first = filter.push("aa");
    assert_eq!(first.text, "");
    let second = filter.push("ab");
    assert_eq!(second.text, "a");
    assert_eq!(second.feedback, Feedback::Halt);
}

#[test]
fn finish_hands_out_what_was_held_back() {
    let mut filter = StopFilter::new("### Assistant:");
    let out = filter.push("done ##");
    assert_eq!(out.text, "done ");
    assert_eq!(out.feedback, Feedback::Continue);
    assert!(!filter.is_halted());
    assert_eq!(filter.finish(), "##");
}

#[test]
fn empty_stop_tag_halts_at_once() {
    let mut filter = StopFilter::new("");
    assert!(filter.is_halted());
    let out = filter.push("anything");
    assert_eq!(out.text, "");
    assert_eq!(out.feedback, Feedback::Halt);
}

#[test]
fn halted_filter_takes_no_more() {
    let mut filter = StopFilter::new("END");
    assert_eq!(filter.push("aEND").text, "a");
    let later = filter.push("more text");
    assert_eq!(later.text, "");
    assert_eq!(later.feedback, Feedback::Halt);
    assert_eq!(filter.finish(), "");
}

#[test]
fn whole_stream_is_cut_at_first_occurrence() {
    let tokens = strings(&["one ", "two#", "# three ", "## four"]);
    assert_eq!(filter_tokens("##", &tokens), "one two");
}

#[test]
fn whole_stream_without_tag_is_shown_entirely() {
    let tokens = strings(&["one ", "two#", " three", "#"]);
    assert_eq!(filter_tokens("##", &tokens), "one two# three#");
}

#[test]
fn token_boundaries_do_not_matter() {
    let text = "It is.### Assistant: I said";
    let chars: Vec<char> = text.chars().collect();
    for cut_a in 0..=chars.len() {
        for cut_b in cut_a..=chars.len() {
            let tokens = vec![
                chars[..cut_a].iter().collect::<String>(),
                chars[cut_a..cut_b].iter().collect::<String>(),
                chars[cut_b..].iter().collect::<String>(),
            ];
            assert_eq!(filter_tokens("### Assistant:", &tokens), "It is.");
        }
    }
}

#[test]
fn tag_of_many_bytes_per_character() {
    let tokens = strings(&["gr\u{fc}\u{df}", "e \u{2192}", "\u{2192} weg"]);
    assert_eq!(filter_tokens("\u{2192}\u{2192}", &tokens), "gr\u{fc}\u{df}e ");
}
