use mcp_manager::json::JsonVal;
use mcp_manager::mcp::{ToolCall, ToolSpec};
use mcp_manager::models::{
    ManagerBody, Message, ModelDecision, Role, TextMessage, ToolOutputType, UsageTokens,
};
use mcp_manager::orchestrator::{
    LoopAction, LoopState, MAX_TURNS, ToolRegistry, UNKNOWN_TOOL_OUTPUT, build_catalog,
};

fn body_with_user(content: &str) -> ManagerBody {
    ManagerBody {
        messages: vec![Message::TextMessage(TextMessage {
            role: Role::User,
            content: String::from(content),
        })],
        temperature: None,
        max_tokens: None,
        top_p: None,
    }
}

fn no_usage() -> UsageTokens {
    UsageTokens { completion_tokens: 0, prompt_tokens: 0, total_tokens: 0 }
}

fn call(name: &str, id: &str) -> ToolCall {
    ToolCall { name: String::from(name), id: String::from(id), arguments: None }
}

#[test]
fn text_only_turn_ends_the_loop_after_one_model_call() {
    let mut st = LoopState::start(body_with_user("hi"), ToolRegistry::new());
    st.on_model_response(
        vec![ModelDecision::TextMessage(String::from("hello"))],
        no_usage(),
    );
    assert_eq!(st.next_action(), LoopAction::Working);
    assert_eq!(st.next_action(), LoopAction::Respond);
    assert_eq!(st.body.messages.len(), 2);
    assert_eq!(
        st.body.messages[1],
        Message::TextMessage(TextMessage {
            role: Role::Assistant,
            content: String::from("hello"),
        })
    );
    assert_eq!(st.turns, 1);
}

#[test]
fn tool_call_batch_appends_one_output_per_call_in_order() {
    let mut registry = ToolRegistry::new();
    registry.register(String::from("alpha"), 0);
    registry.register(String::from("beta"), 1);
    let mut st = LoopState::start(body_with_user("go"), registry);
    st.on_model_response(
        vec![ModelDecision::ToolCalls(vec![call("alpha", "id-1"), call("beta", "id-2")])],
        no_usage(),
    );
    assert_eq!(st.next_action(), LoopAction::DispatchTools);
    {
        let pending = st.pending_calls();
        assert_eq!(pending.len(), 2);
        assert_eq!(pending[0].1, Some(0));
        assert_eq!(pending[1].1, Some(1));
    }
    st.apply_tool_outputs(vec![String::from("out-a"), String::from("out-b")]);
    assert_eq!(st.body.messages.len(), 4);
    assert_eq!(
        st.body.messages[2],
        Message::ToolOutput {
            output_type: ToolOutputType::FunctionCallOutput,
            call_id: String::from("id-1"),
            output: String::from("out-a"),
        }
    );
    assert_eq!(
        st.body.messages[3],
        Message::ToolOutput {
            output_type: ToolOutputType::FunctionCallOutput,
            call_id: String::from("id-2"),
            output: String::from("out-b"),
        }
    );
    assert_eq!(st.next_action(), LoopAction::CallModel);
}

#[test]
fn unknown_tool_name_feeds_an_error_output_back_instead_of_aborting() {
    let mut registry = ToolRegistry::new();
    registry.register(String::from("alpha"), 0);
    let mut st = LoopState::start(body_with_user("go"), registry);
    st.on_model_response(
        vec![ModelDecision::ToolCalls(vec![call("alpha", "id-1"), call("ghost", "id-2")])],
        no_usage(),
    );
    assert_eq!(st.next_action(), LoopAction::DispatchTools);
    {
        let pending = st.pending_calls();
        assert_eq!(pending[0].1, Some(0));
        assert_eq!(pending[1].1, None);
    }
    st.apply_tool_outputs(vec![String::from("out-a")]);
    assert_eq!(
        st.body.messages[3],
        Message::ToolOutput {
            output_type: ToolOutputType::FunctionCallOutput,
            call_id: String::from("id-2"),
            output: String::from(UNKNOWN_TOOL_OUTPUT),
        }
    );
    assert_eq!(st.next_action(), LoopAction::CallModel);
}

#[test]
fn text_after_the_batch_lands_after_the_outputs() {
    let mut registry = ToolRegistry::new();
    registry.register(String::from("alpha"), 0);
    let mut st = LoopState::start(body_with_user("go"), registry);
    st.on_model_response(
        vec![
            ModelDecision::ToolCalls(vec![call("alpha", "id-1")]),
            ModelDecision::TextMessage(String::from("done")),
        ],
        no_usage(),
    );
    assert_eq!(st.next_action(), LoopAction::DispatchTools);
    st.apply_tool_outputs(vec![String::from("out-a")]);
    assert_eq!(st.next_action(), LoopAction::Working);
    assert_eq!(st.next_action(), LoopAction::CallModel);
    let n = st.body.messages.len();
    assert!(matches!(st.body.messages[n - 3], Message::ToolCalls { .. }));
    assert!(matches!(st.body.messages[n - 2], Message::ToolOutput { .. }));
    assert_eq!(
        st.body.messages[n - 1],
        Message::TextMessage(TextMessage {
            role: Role::Assistant,
            content: String::from("done"),
        })
    );
}

#[test]
fn spent_turn_budget_fails_the_request() {
    let mut st = LoopState::start(body_with_user("go"), ToolRegistry::new());
    st.turns = MAX_TURNS;
    st.saw_tool_calls = true;
    match st.next_action() {
        LoopAction::Fail(e) => assert_eq!(e.status, 500),
        other => panic!("expected the turn budget to fail the request, got {other:?}"),
    }
}

#[test]
fn usage_accumulates_across_turns() {
    let mut st = LoopState::start(body_with_user("hi"), ToolRegistry::new());
    st.on_model_response(
        vec![ModelDecision::TextMessage(String::from("a"))],
        UsageTokens { completion_tokens: 1, prompt_tokens: 2, total_tokens: 3 },
    );
    st.on_model_response(
        vec![ModelDecision::TextMessage(String::from("b"))],
        UsageTokens { completion_tokens: 10, prompt_tokens: 20, total_tokens: 30 },
    );
    assert_eq!(
        st.usage,
        UsageTokens { completion_tokens: 11, prompt_tokens: 22, total_tokens: 33 }
    );
    assert_eq!(st.turns, 2);
}

#[test]
fn registry_resolves_to_the_last_registration() {
    let mut registry = ToolRegistry::new();
    registry.register(String::from("dup"), 0);
    registry.register(String::from("dup"), 7);
    assert_eq!(registry.resolve(&String::from("dup")), Some(7));
    assert_eq!(registry.resolve(&String::from("missing")), None);
}

#[test]
fn chat_round_trip_with_a_text_double_answers_hello() {
    // The core of a request against a workspace bound to a model double
    // with no tools: the caller sends one user message, the double
    // decides on plain text, and the answered conversation ends with the
    // assistant's text.
    let mut st = LoopState::start(body_with_user("hi"), ToolRegistry::new());
    let double_decisions = vec![ModelDecision::TextMessage(String::from("hello"))];
    st.on_model_response(double_decisions, no_usage());
    loop {
        match st.next_action() {
            LoopAction::Working => continue,
            LoopAction::Respond => break,
            other => panic!("the loop should respond, got {other:?}"),
        }
    }
    let last = st.body.messages.last().unwrap();
    assert_eq!(
        *last,
        Message::TextMessage(TextMessage {
            role: Role::Assistant,
            content: String::from("hello"),
        })
    );
}

#[test]
fn build_catalog_flattens_in_provider_order_and_shadows_duplicates() {
    let spec = |name: &str| ToolSpec {
        name: String::from(name),
        description: None,
        input_schema: JsonVal::Null,
    };
    let lists = vec![vec![spec("a"), spec("dup")], vec![spec("dup"), spec("b")]];
    let (catalog, registry) = build_catalog(lists);
    let names: Vec<String> = catalog.iter().map(|t| t.name.clone()).collect();
    assert_eq!(names, vec![
        String::from("a"),
        String::from("dup"),
        String::from("dup"),
        String::from("b"),
    ]);
    assert_eq!(registry.resolve(&String::from("a")), Some(0));
    assert_eq!(registry.resolve(&String::from("b")), Some(1));
    // The duplicated name silently resolves to its last registration.
    assert_eq!(registry.resolve(&String::from("dup")), Some(1));
}
