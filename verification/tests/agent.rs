use isla::personality::agent::{
    begin, step, AgentTurn, AgentTurnService, TurnAction, TurnEvent, TurnRole, TurnState, MAX_ROUNDS,
};
use isla::personality::tool_router::{ToolDestination, ToolRouterService};
use isla::services::ServiceError;

fn responded(tool_calls: usize, stop_is_tool_use: bool) -> TurnEvent {
    TurnEvent::Responded { tool_calls, stop_is_tool_use }
}

/// A content block of these tests: a text, a tool call, or a tool result.
#[derive(Debug, Clone, PartialEq)]
enum Block {
    Text(&'static str),
    ToolUse { id: &'static str, name: &'static str },
    ToolResult { id: &'static str, output: &'static str },
}

#[test]
fn full_turn_with_one_tool_call() {
    let (mut turn, action) = AgentTurn::<Block>::start();
    assert_eq!(action, TurnAction::CallProvider);
    let action = turn.on_response(
        vec![Block::ToolUse { id: "call-1", name: "send_message" }],
        1,
        true,
    );
    assert_eq!(action, TurnAction::RouteTools);
    let action = turn.on_tools_routed(vec![Block::ToolResult { id: "call-1", output: "sent" }]);
    assert_eq!(action, TurnAction::CallProvider);
    let action = turn.on_response(vec![Block::Text("done")], 0, false);
    assert_eq!(action, TurnAction::Finish { rounds: 2 });

    let outcome = turn.into_outcome();
    assert_eq!(outcome.rounds, 2);
    assert_eq!(outcome.produced.len(), 3);
    assert_eq!(outcome.produced[0].role, TurnRole::Assistant);
    assert_eq!(
        outcome.produced[0].content,
        vec![Block::ToolUse { id: "call-1", name: "send_message" }]
    );
    assert_eq!(outcome.produced[1].role, TurnRole::Tool);
    assert_eq!(
        outcome.produced[1].content,
        vec![Block::ToolResult { id: "call-1", output: "sent" }]
    );
    assert_eq!(outcome.produced[2].role, TurnRole::Assistant);
    assert_eq!(outcome.produced[2].content, vec![Block::Text("done")]);
}

#[test]
fn turn_without_tools_ends_in_one_round() {
    let (mut turn, _) = AgentTurn::<Block>::start();
    let action = turn.on_response(vec![Block::Text("hello")], 0, false);
    assert_eq!(action, TurnAction::Finish { rounds: 1 });
    let outcome = turn.into_outcome();
    assert_eq!(outcome.rounds, 1);
    assert_eq!(outcome.produced.len(), 1);
}

#[test]
fn state_machine_alone_runs_the_same_turn() {
    let (state, action) = begin();
    assert_eq!(action, TurnAction::CallProvider);
    let (state, action) = step(state, responded(1, true));
    assert_eq!(action, TurnAction::RouteTools);
    let (state, action) = step(state, TurnEvent::ToolsRouted);
    assert_eq!(action, TurnAction::CallProvider);
    let (_, action) = step(state, responded(0, false));
    assert_eq!(action, TurnAction::Finish { rounds: 2 });
}

#[test]
fn claiming_tool_use_without_tools_is_invalid() {
    let (state, _) = begin();
    let (_, action) = step(state, responded(0, true));
    assert_eq!(action, TurnAction::Fail(ServiceError::InvalidInput));
}

#[test]
fn a_model_that_keeps_asking_for_tools_is_cut_off() {
    let (mut state, mut action) = begin();
    let mut calls = 1;
    loop {
        let (s, a) = step(state, responded(2, true));
        assert_eq!(a, TurnAction::RouteTools);
        let (s, a) = step(s, TurnEvent::ToolsRouted);
        state = s;
        action = a;
        if action != TurnAction::CallProvider {
            break;
        }
        calls += 1;
    }
    assert_eq!(calls, MAX_ROUNDS);
    assert_eq!(state, TurnState { round: MAX_ROUNDS });
    assert_eq!(action, TurnAction::Fail(ServiceError::BusinessPanic));
}

fn router() -> ToolRouterService<(), ()> {
    ToolRouterService {
        internal_namespaces: vec!["interface".to_string()],
        internal: (),
        plugin: (),
    }
}

#[test]
fn internal_namespace_goes_to_internal_handler() {
    assert_eq!(router().destination(&"interface".to_string()), ToolDestination::Internal);
}

#[test]
fn unknown_namespace_goes_to_plugin_handler() {
    assert_eq!(router().destination(&"office.gmail".to_string()), ToolDestination::Plugin);
    assert_eq!(router().destination(&"interfac".to_string()), ToolDestination::Plugin);
}

#[test]
fn agent_service_holds_its_collaborators() {
    let agent = AgentTurnService { provider: 1u8, router: router() };
    assert_eq!(agent.provider, 1);
    assert_eq!(agent.router.internal_namespaces.len(), 1);
}
