//! The conversation loop's decisions. The loop awaits a line of input, and on
//! each thing that the reader hands back it decides what is done next: a turn
//! of inference, a message, or the closing report.

use vstd::prelude::*;
use crate::config::ChatConfig;
use crate::filter::{FilterView, StopFilter};
use crate::prompt::{input_prompt_text, seed_text, spoken_line, turn_prompt};
use crate::stats::{InferenceStats, StatsView};

verus! {

/// The two states of the loop.
#[derive(Clone, Copy, Debug, PartialEq, Eq, Structural)]
pub enum LoopState {
    AwaitingInput,
    Terminated,
}

/// What the reader hands back.
#[derive(Debug, PartialEq, Eq)]
pub enum InputEvent {
    /// A line was read.
    Line(String),
    /// The input has ended.
    EndOfStream,
    /// The user has interrupted.
    Interrupted,
    /// Reading failed in a way that does not end the input; the text says how.
    ReadError(String),
}

/// What the engine is asked for in one turn.
#[derive(Debug, PartialEq, Eq)]
pub struct InferenceRequest {
    /// The prompt of the turn.
    pub prompt: String,
    /// Whether the tokens that the session already holds are shown again.
    pub play_back_previous_tokens: bool,
    /// The most tokens to generate; `None` for no limit.
    pub maximum_token_count: Option<usize>,
}

/// What the loop does next.
#[derive(Debug, PartialEq, Eq)]
pub enum LoopAction {
    /// Run a turn of inference, then await input again.
    Infer(InferenceRequest),
    /// Show this message, then await input again.
    ShowError(String),
    /// Show the closing report on these statistics, and end.
    Report(InferenceStats),
    /// Nothing: the loop has ended before.
    Ignore,
}

/// An action as contracts see it.
pub enum ActionView {
    Infer { prompt: Seq<char>, play_back_previous_tokens: bool, maximum_token_count: Option<usize> },
    ShowError(Seq<char>),
    Report(StatsView),
    Ignore,
}

impl View for LoopAction {
    type V = ActionView;

    open spec fn view(&self) -> ActionView {
        match self {
            LoopAction::Infer(request) => ActionView::Infer {
                prompt: request.prompt@,
                play_back_previous_tokens: request.play_back_previous_tokens,
                maximum_token_count: request.maximum_token_count,
            },
            LoopAction::ShowError(message) => ActionView::ShowError(message@),
            LoopAction::Report(stats) => ActionView::Report(stats@),
            LoopAction::Ignore => ActionView::Ignore,
        }
    }
}

/// The input has ended or the user has interrupted.
pub open spec fn is_end_signal(event: InputEvent) -> bool {
    event is EndOfStream || event is Interrupted
}

/// The state after an event: an end signal terminates the loop, and nothing
/// else changes its state.
pub open spec fn next_state(state: LoopState, event: InputEvent) -> LoopState {
    if is_end_signal(event) {
        LoopState::Terminated
    } else {
        state
    }
}

/// How many reports an event brings about: one where an end signal meets the
/// awaiting loop, else none.
pub open spec fn reports_on(state: LoopState, event: InputEvent) -> nat {
    if state is AwaitingInput && is_end_signal(event) {
        1
    } else {
        0
    }
}

/// The state after a sequence of events.
pub open spec fn state_after(state: LoopState, events: Seq<InputEvent>) -> LoopState
    decreases events.len(),
{
    if events.len() == 0 {
        state
    } else {
        next_state(state_after(state, events.drop_last()), events.last())
    }
}

/// How many reports a sequence of events brings about.
pub open spec fn reports_during(state: LoopState, events: Seq<InputEvent>) -> nat
    decreases events.len(),
{
    if events.len() == 0 {
        0
    } else {
        reports_during(state, events.drop_last()) + reports_on(
            state_after(state, events.drop_last()),
            events.last(),
        )
    }
}

/// There is an end signal among the events.
pub open spec fn has_end_signal(events: Seq<InputEvent>) -> bool {
    exists|i: int| 0 <= i < events.len() && is_end_signal(#[trigger] events[i])
}

/// A conversation as contracts see it.
pub struct ConversationView {
    /// The tag under which the user speaks.
    pub user_tag: Seq<char>,
    /// The tag under which the assistant speaks.
    pub assistant_tag: Seq<char>,
    /// The text at which the assistant's turn ends.
    pub stop: Seq<char>,
    /// The text that seeds the session.
    pub seed: Seq<char>,
    /// The state of the loop.
    pub state: LoopState,
    /// The running statistics.
    pub stats: StatsView,
}

impl ConversationView {
    /// What the loop does on an event. While it awaits input: a line opens a
    /// turn, with the line in the turn's prompt, nothing played back and no
    /// limit on the tokens; an end signal brings the report on the statistics
    /// so far; a failed read brings its message. Once terminated, nothing.
    pub open spec fn action_on(self, event: InputEvent) -> ActionView {
        match self.state {
            LoopState::Terminated => ActionView::Ignore,
            LoopState::AwaitingInput => match event {
                InputEvent::Line(line) => ActionView::Infer {
                    prompt: turn_prompt(self.user_tag, line@, self.assistant_tag),
                    play_back_previous_tokens: false,
                    maximum_token_count: None,
                },
                InputEvent::EndOfStream => ActionView::Report(self.stats),
                InputEvent::Interrupted => ActionView::Report(self.stats),
                InputEvent::ReadError(message) => ActionView::ShowError(message@),
            },
        }
    }

    /// The conversation after an event.
    pub open spec fn after_input(self, event: InputEvent) -> ConversationView {
        ConversationView { state: next_state(self.state, event), ..self }
    }

    /// The conversation after a turn with these statistics: while the loop
    /// awaits input they are added to the running statistics.
    pub open spec fn after_turn(self, turn: StatsView) -> ConversationView {
        match self.state {
            LoopState::Terminated => self,
            LoopState::AwaitingInput => ConversationView {
                stats: self.stats.absorb(turn),
                ..self
            },
        }
    }
}

/// An event brings a report exactly where it counts as one.
pub proof fn lemma_report_is_counted(conversation: ConversationView, event: InputEvent)
    ensures
        conversation.action_on(event) is Report <==> reports_on(conversation.state, event) == 1,
        conversation.action_on(event) is Report ==> conversation.after_input(event).state
            is Terminated,
        conversation.action_on(event) matches ActionView::Report(stats) ==> stats
            == conversation.stats,
{
}

/// Once terminated, the loop stays terminated and reports no more.
pub proof fn lemma_terminated_is_final(events: Seq<InputEvent>)
    ensures
        state_after(LoopState::Terminated, events) is Terminated,
        reports_during(LoopState::Terminated, events) == 0,
    decreases events.len(),
{
    if events.len() > 0 {
        lemma_terminated_is_final(events.drop_last());
    }
}

/// Termination. Over any sequence of events that meets the awaiting loop, the
/// loop is terminated exactly if an end signal was among them, and then it
/// has reported exactly once; without an end signal it has not reported.
pub proof fn lemma_end_signal_reports_once(events: Seq<InputEvent>)
    ensures
        state_after(LoopState::AwaitingInput, events) is Terminated <==> has_end_signal(events),
        reports_during(LoopState::AwaitingInput, events) == if has_end_signal(events) {
            1nat
        } else {
            0nat
        },
    decreases events.len(),
{
    if events.len() > 0 {
        let earlier = events.drop_last();
        lemma_end_signal_reports_once(earlier);
        if has_end_signal(earlier) {
            let i = choose|i: int| 0 <= i < earlier.len() && is_end_signal(#[trigger] earlier[i]);
            assert(is_end_signal(events[i]));
        } else if is_end_signal(events.last()) {
            assert(is_end_signal(events[events.len() - 1]));
        } else {
            assert forall|i: int| 0 <= i < events.len() implies !is_end_signal(
                #[trigger] events[i],
            ) by {
                if i < earlier.len() {
                    assert(events[i] == earlier[i]);
                }
            }
        }
    }
}

/// A conversation: the tags of its script, the state of its loop, and its
/// running statistics.
pub struct Conversation {
    config: ChatConfig,
    state: LoopState,
    stats: InferenceStats,
}

impl View for Conversation {
    type V = ConversationView;

    closed spec fn view(&self) -> ConversationView {
        ConversationView {
            user_tag: self.config.user_name@,
            assistant_tag: self.config.character_name@,
            stop: self.config.stop_sequence@,
            seed: seed_text(
                self.config.persona@,
                spoken_line(self.config.character_name@, self.config.greeting@),
            ),
            state: self.state,
            stats: self.stats@,
        }
    }
}

impl Conversation {
    /// A conversation on the script of `config` that awaits its first input,
    /// with all statistics at zero.
    pub fn new(config: ChatConfig) -> (conversation: Conversation)
        ensures
            conversation@ == (ConversationView {
                user_tag: config.user_name@,
                assistant_tag: config.character_name@,
                stop: config.stop_sequence@,
                seed: seed_text(
                    config.persona@,
                    spoken_line(config.character_name@, config.greeting@),
                ),
                state: LoopState::AwaitingInput,
                stats: StatsView::zero(),
            }),
    {
        Conversation { config, state: LoopState::AwaitingInput, stats: InferenceStats::new() }
    }

    /// The state of the loop.
    pub fn state(&self) -> (state: LoopState)
        ensures
            state == self@.state,
    {
        self.state
    }

    /// The running statistics.
    pub fn stats(&self) -> (stats: InferenceStats)
        ensures
            stats@ == self@.stats,
    {
        self.stats
    }

    /// The text that seeds the session: the persona, then the history.
    pub fn seed_prompt(&self) -> (seed: String)
        ensures
            seed@ == self@.seed,
    {
        self.config.seed_prompt()
    }

    /// What the reader is prompted with.
    pub fn input_prompt(&self) -> (prompt: String)
        ensures
            prompt@ == input_prompt_text(self@.user_tag),
    {
        self.config.input_prompt()
    }

    /// A fresh filter for one turn's output, on the configured stop sequence.
    pub fn turn_filter(&self) -> (filter: StopFilter)
        ensures
            filter@ == FilterView::fresh(self@.stop),
    {
        StopFilter::new(self.config.stop_sequence.as_str())
    }

    /// Decides what the loop does on what the reader handed back, and moves
    /// to the next state.
    pub fn on_input(&mut self, event: InputEvent) -> (action: LoopAction)
        ensures
            action@ == old(self)@.action_on(event),
            final(self)@ == old(self)@.after_input(event),
    {
        match self.state {
            LoopState::Terminated => LoopAction::Ignore,
            LoopState::AwaitingInput => match event {
                InputEvent::Line(line) => LoopAction::Infer(
                    InferenceRequest {
                        prompt: self.config.turn_prompt(line.as_str()),
                        play_back_previous_tokens: false,
                        maximum_token_count: None,
                    },
                ),
                InputEvent::EndOfStream => {
                    self.state = LoopState::Terminated;
                    LoopAction::Report(self.stats)
                },
                InputEvent::Interrupted => {
                    self.state = LoopState::Terminated;
                    LoopAction::Report(self.stats)
                },
                InputEvent::ReadError(message) => LoopAction::ShowError(message),
            },
        }
    }

    /// Takes in the statistics of a finished turn: while the loop awaits
    /// input they are added to the running statistics, each counter by
    /// saturating addition. No counter decreases.
    pub fn record_turn(&mut self, turn: &InferenceStats)
        ensures
            final(self)@ == old(self)@.after_turn(turn@),
            old(self)@.stats.at_most(final(self)@.stats),
    {
        match self.state {
            LoopState::Terminated => {},
            LoopState::AwaitingInput => {
                self.stats.absorb(turn);
            },
        }
    }
}

} // verus!
