//! The agent turn loop: call the model, route any tool use, repeat until done.
//!
//! The loop alternates calls to the model and to the tool router with
//! decisions about what to do next. The decisions are a small state machine,
//! [`step`]: the caller performs the action it returns (call the provider,
//! route the requested tools, or stop) and feeds back what happened.
//! A turn makes at most [`MAX_ROUNDS`] provider calls, so a model that keeps
//! asking for tools can never loop forever.
use vstd::prelude::*;
use crate::services::ServiceError;

verus! {

/// Upper bound on provider round-trips in a single turn.
pub const MAX_ROUNDS: u32 = 16;

/// Drives one user turn to completion: call the model, route tools, feed the
/// results back, repeat until the model ends its turn.
///
/// Generic over the provider and the tool router so tests inject mocks and the
/// real wiring injects the live provider and router without touching the loop.
#[derive(Debug, Clone)]
pub struct AgentTurnService<P, R> {
    /// The upstream model.
    pub provider: P,
    /// The tool-call router.
    pub router: R,
}

/// Progress of a turn: the number of provider calls made so far.
#[derive(Debug, Clone, Copy, PartialEq, Eq, Structural)]
pub struct TurnState {
    pub round: u32,
}

/// What happened since the last action.
#[derive(Debug, Clone, Copy, PartialEq, Eq, Structural)]
pub enum TurnEvent {
    /// The provider answered, asking for `tool_calls` tool calls and stopping
    /// for tool use or not.
    Responded { tool_calls: usize, stop_is_tool_use: bool },
    /// The requested tool calls were routed and their results appended.
    ToolsRouted,
}

/// What the caller must do next.
#[derive(Debug, Clone, Copy, PartialEq, Eq, Structural)]
pub enum TurnAction {
    /// Send the request, with everything produced so far, to the provider.
    CallProvider,
    /// Route every tool call of the last response.
    RouteTools,
    /// The turn is over after `rounds` provider calls.
    Finish { rounds: u32 },
    /// The turn failed.
    Fail(ServiceError),
}

/// The transition function of a turn.
pub open spec fn step_spec(state: TurnState, event: TurnEvent) -> (TurnState, TurnAction) {
    match event {
        TurnEvent::Responded { tool_calls, stop_is_tool_use } => {
            if tool_calls == 0 {
                if stop_is_tool_use {
                    (state, TurnAction::Fail(ServiceError::InvalidInput))
                } else {
                    (state, TurnAction::Finish { rounds: state.round })
                }
            } else {
                (state, TurnAction::RouteTools)
            }
        },
        TurnEvent::ToolsRouted => {
            if state.round < MAX_ROUNDS {
                (TurnState { round: (state.round + 1) as u32 }, TurnAction::CallProvider)
            } else {
                (state, TurnAction::Fail(ServiceError::BusinessPanic))
            }
        },
    }
}

/// Start a turn: the first provider call is round one.
pub fn begin() -> (r: (TurnState, TurnAction))
    ensures
        r == (TurnState { round: 1 }, TurnAction::CallProvider),
{
    (TurnState { round: 1 }, TurnAction::CallProvider)
}

/// Decide the next action from the state of the turn and what just happened:
/// a response without tool calls ends the turn (successfully unless the model
/// claims to stop for tool use, which is invalid); a response with tool calls
/// has them routed; after routing, the provider is called again unless the
/// turn already used [`MAX_ROUNDS`] calls.
pub fn step(state: TurnState, event: TurnEvent) -> (r: (TurnState, TurnAction))
    ensures
        r == step_spec(state, event),
{
    match event {
        TurnEvent::Responded { tool_calls, stop_is_tool_use } => {
            if tool_calls == 0 {
                if stop_is_tool_use {
                    (state, TurnAction::Fail(ServiceError::InvalidInput))
                } else {
                    (state, TurnAction::Finish { rounds: state.round })
                }
            } else {
                (state, TurnAction::RouteTools)
            }
        },
        TurnEvent::ToolsRouted => {
            if state.round < MAX_ROUNDS {
                (TurnState { round: state.round + 1 }, TurnAction::CallProvider)
            } else {
                (state, TurnAction::Fail(ServiceError::BusinessPanic))
            }
        },
    }
}

/// The state and last action after feeding `events` to a fresh turn.
pub open spec fn run(events: Seq<TurnEvent>) -> (TurnState, TurnAction)
    decreases events.len(),
{
    if events.len() == 0 {
        (TurnState { round: 1 }, TurnAction::CallProvider)
    } else {
        step_spec(run(events.drop_last()).0, events.last())
    }
}

/// How many times the turn fed `events` told the caller to call the provider.
pub open spec fn provider_calls(events: Seq<TurnEvent>) -> nat
    decreases events.len(),
{
    if events.len() == 0 {
        1
    } else {
        provider_calls(events.drop_last()) + if run(events).1 == TurnAction::CallProvider {
            1nat
        } else {
            0nat
        }
    }
}

proof fn lemma_run_counts(events: Seq<TurnEvent>)
    ensures
        provider_calls(events) == run(events).0.round,
        1 <= run(events).0.round <= MAX_ROUNDS,
    decreases events.len(),
{
    if events.len() > 0 {
        lemma_run_counts(events.drop_last());
    }
}

/// Whatever the model answers, a turn makes at most [`MAX_ROUNDS`] provider
/// calls, and the state always counts the calls made so far.
pub proof fn law_turn_is_bounded(events: Seq<TurnEvent>)
    ensures
        provider_calls(events) <= MAX_ROUNDS,
        run(events).0.round == provider_calls(events),
{
    lemma_run_counts(events);
}

/// A finished turn reports exactly the number of provider calls it made.
pub proof fn law_finish_reports_rounds(events: Seq<TurnEvent>)
    ensures
        run(events).1 matches TurnAction::Finish { rounds } ==> rounds == provider_calls(events),
{
    lemma_run_counts(events);
    if events.len() > 0 {
        lemma_run_counts(events.drop_last());
    }
}

/// What each answer of the model leads to: an answer that asks for tool
/// calls has them routed, whatever its stop reason, and changes no state; an
/// answer without tool calls ends the turn after the calls made so far, as a
/// failure exactly when it claims to stop for tool use.
pub proof fn law_answers_route_or_end(state: TurnState, tool_calls: usize, stop_is_tool_use: bool)
    ensures
        tool_calls > 0 ==> step_spec(state, TurnEvent::Responded { tool_calls, stop_is_tool_use })
            == (state, TurnAction::RouteTools),
        tool_calls == 0 && !stop_is_tool_use ==> step_spec(
            state,
            TurnEvent::Responded { tool_calls, stop_is_tool_use },
        ) == (state, TurnAction::Finish { rounds: state.round }),
        tool_calls == 0 && stop_is_tool_use ==> step_spec(
            state,
            TurnEvent::Responded { tool_calls, stop_is_tool_use },
        ) == (state, TurnAction::Fail(ServiceError::InvalidInput)),
{
}

/// After the tool results are fed back the model is called again, one round
/// later, unless the turn already made [`MAX_ROUNDS`] calls, in which case it
/// fails and makes no further call.
pub proof fn law_routed_results_call_again_within_bound(state: TurnState)
    ensures
        state.round < MAX_ROUNDS ==> step_spec(state, TurnEvent::ToolsRouted) == (
            TurnState { round: (state.round + 1) as u32 },
            TurnAction::CallProvider,
        ),
        state.round >= MAX_ROUNDS ==> step_spec(state, TurnEvent::ToolsRouted) == (
            state,
            TurnAction::Fail(ServiceError::BusinessPanic),
        ),
{
}

// ─── The history a turn produces ────────────────────────────────────────────

/// Who wrote a message of a turn.
#[derive(Debug, Clone, Copy, PartialEq, Eq, Structural)]
pub enum TurnRole {
    /// The model's output for one round.
    Assistant,
    /// The results of the tool calls that output asked for, in order.
    Tool,
}

/// A message a turn produces, its content made of blocks of type `B`.
#[derive(Debug, Clone)]
pub struct TurnMessage<B> {
    pub role: TurnRole,
    pub content: Vec<B>,
}

/// The result of a turn: the messages it produced, in chronological order,
/// ready to persist as conversation history, and the provider calls it made.
#[derive(Debug, Clone)]
pub struct AgentTurnOutcome<B> {
    pub produced: Vec<TurnMessage<B>>,
    pub rounds: u32,
}

/// The history of a turn after the model answered `responses` and the tool
/// results `results` were fed back: answers and result batches alternate,
/// starting with an answer.
pub open spec fn history<B>(responses: Seq<Seq<B>>, results: Seq<Seq<B>>) -> Seq<(TurnRole, Seq<B>)> {
    Seq::new(
        responses.len() + results.len(),
        |k: int|
            if k % 2 == 0 {
                (TurnRole::Assistant, responses[k / 2])
            } else {
                (TurnRole::Tool, results[k / 2])
            },
    )
}

/// The produced messages as roles and block sequences.
pub open spec fn messages_view<B>(produced: Seq<TurnMessage<B>>) -> Seq<(TurnRole, Seq<B>)> {
    produced.map_values(|m: TurnMessage<B>| (m.role, m.content@))
}

/// A turn in progress: the state machine, the messages produced so far, and
/// (for the proofs) the answers and result batches they came from.
pub struct AgentTurn<B> {
    pub state: TurnState,
    pub produced: Vec<TurnMessage<B>>,
    pub responses: Ghost<Seq<Seq<B>>>,
    pub results: Ghost<Seq<Seq<B>>>,
}

impl<B> AgentTurn<B> {
    /// The produced messages are the alternating history of the answers and
    /// result batches so far.
    pub open spec fn wf(&self) -> bool {
        messages_view(self.produced@) == history(self.responses@, self.results@)
    }

    /// The provider was called and its answer is awaited.
    pub open spec fn awaiting_response(&self) -> bool {
        &&& self.wf()
        &&& self.responses@.len() == self.results@.len()
        &&& self.state.round == self.responses@.len() + 1
    }

    /// The tool calls of the last answer are being routed.
    pub open spec fn awaiting_results(&self) -> bool {
        &&& self.wf()
        &&& self.responses@.len() == self.results@.len() + 1
        &&& self.state.round == self.responses@.len()
    }

    /// Start a turn: nothing produced yet, and the provider is called for
    /// round one.
    pub fn start() -> (r: (Self, TurnAction))
        ensures
            r.0.awaiting_response(),
            r.0.state == (TurnState { round: 1 }),
            r.0.produced@.len() == 0,
            r.0.responses@.len() == 0,
            r.1 == TurnAction::CallProvider,
    {
        let (state, action) = begin();
        let turn = AgentTurn {
            state,
            produced: Vec::new(),
            responses: Ghost(Seq::empty()),
            results: Ghost(Seq::empty()),
        };
        proof {
            assert(messages_view(turn.produced@) =~= history(turn.responses@, turn.results@));
        }
        (turn, action)
    }

    /// Record the provider's answer (its content blocks, how many tool calls
    /// it asks for, whether it stopped for tool use) as an assistant message,
    /// and decide what comes next as [`step`] does.
    pub fn on_response(&mut self, content: Vec<B>, tool_calls: usize, stop_is_tool_use: bool) -> (a:
        TurnAction)
        requires
            old(self).awaiting_response(),
        ensures
            final(self).wf(),
            messages_view(final(self).produced@) == messages_view(old(self).produced@).push(
                (TurnRole::Assistant, content@),
            ),
            final(self).responses@ == old(self).responses@.push(content@),
            final(self).results@ == old(self).results@,
            (final(self).state, a) == step_spec(
                old(self).state,
                TurnEvent::Responded { tool_calls, stop_is_tool_use },
            ),
            a == TurnAction::RouteTools ==> final(self).awaiting_results(),
            a matches TurnAction::Finish { rounds } ==> rounds == final(self).responses@.len()
                && final(self).results@.len() + 1 == rounds,
    {
        let ghost cv = content@;
        let ghost old_produced = self.produced@;
        proof {
            self.responses@ = self.responses@.push(cv);
        }
        self.produced.push(TurnMessage { role: TurnRole::Assistant, content });
        proof {
            assert(messages_view(self.produced@) =~= messages_view(old_produced).push(
                (TurnRole::Assistant, cv),
            ));
            assert(messages_view(self.produced@) =~= history(self.responses@, self.results@));
        }
        let (state, action) = step(self.state, TurnEvent::Responded { tool_calls, stop_is_tool_use });
        self.state = state;
        action
    }

    /// Record the routed results of the last answer's tool calls, in order, as
    /// one tool message, and decide what comes next as [`step`] does.
    pub fn on_tools_routed(&mut self, results: Vec<B>) -> (a: TurnAction)
        requires
            old(self).awaiting_results(),
        ensures
            final(self).wf(),
            messages_view(final(self).produced@) == messages_view(old(self).produced@).push(
                (TurnRole::Tool, results@),
            ),
            final(self).responses@ == old(self).responses@,
            final(self).results@ == old(self).results@.push(results@),
            (final(self).state, a) == step_spec(old(self).state, TurnEvent::ToolsRouted),
            a == TurnAction::CallProvider ==> final(self).awaiting_response(),
    {
        let ghost rv = results@;
        let ghost old_produced = self.produced@;
        proof {
            self.results@ = self.results@.push(rv);
        }
        self.produced.push(TurnMessage { role: TurnRole::Tool, content: results });
        proof {
            assert(messages_view(self.produced@) =~= messages_view(old_produced).push(
                (TurnRole::Tool, rv),
            ));
            assert(messages_view(self.produced@) =~= history(self.responses@, self.results@));
        }
        let (state, action) = step(self.state, TurnEvent::ToolsRouted);
        self.state = state;
        action
    }

    /// The outcome of the turn: what it produced and the provider calls made.
    pub fn into_outcome(self) -> (o: AgentTurnOutcome<B>)
        ensures
            o.produced@ == self.produced@,
            o.rounds == self.state.round,
    {
        AgentTurnOutcome { produced: self.produced, rounds: self.state.round }
    }
}

/// A finished turn's history: after `n` answers and `n - 1` result batches the
/// turn produced `2n - 1` messages, the `i`-th answer at position `2i` as an
/// assistant message and the `i`-th result batch at position `2i + 1` as a
/// tool message.
pub proof fn law_finished_turn_history<B>(responses: Seq<Seq<B>>, results: Seq<Seq<B>>)
    requires
        responses.len() == results.len() + 1,
    ensures
        history(responses, results).len() == 2 * responses.len() - 1,
        forall|i: int|
            0 <= i < responses.len() ==> #[trigger] history(responses, results)[2 * i] == (
                TurnRole::Assistant,
                responses[i],
            ),
        forall|i: int|
            0 <= i < results.len() ==> #[trigger] history(responses, results)[2 * i + 1] == (
                TurnRole::Tool,
                results[i],
            ),
{
    assert forall|i: int| 0 <= i < responses.len() implies #[trigger] history(responses, results)[2
        * i] == (TurnRole::Assistant, responses[i]) by {
        assert((2 * i) % 2 == 0 && (2 * i) / 2 == i);
    }
    assert forall|i: int| 0 <= i < results.len() implies #[trigger] history(responses, results)[2
        * i + 1] == (TurnRole::Tool, results[i]) by {
        assert((2 * i + 1) % 2 == 1 && (2 * i + 1) / 2 == i);
    }
}

} // verus!
