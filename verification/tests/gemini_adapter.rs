use mcp_manager::json::JsonVal;
use mcp_manager::mcp::{ToolCall as GeneralToolCall, ToolSpec};
use mcp_manager::models::gemini::{
    Candidate, FinishReason, FunctionCall, FunctionContent, FunctionResponse, Message, Part,
    RequestBody, ResponseBody, Role, UsageMetadata, gemini_contents, gemini_decisions,
    gemini_request, gemini_tool, remove_keys,
};
use mcp_manager::models::{
    ManagerBody, Message as ManagerMessage, ModelDecision, Role as ManagerRole, TextMessage,
    ToolOutputType, UsageTokens,
};

fn text(role: ManagerRole, content: &str) -> ManagerMessage {
    ManagerMessage::TextMessage(TextMessage { role, content: String::from(content) })
}

fn tool_calls_msg() -> ManagerMessage {
    ManagerMessage::ToolCalls {
        role: ManagerRole::Assistant,
        tool_calls: vec![GeneralToolCall {
            name: String::from("lookup"),
            id: String::from("c1"),
            arguments: Some(String::from("{\"q\":1}")),
        }],
    }
}

fn tool_output(call_id: &str, output: &str) -> ManagerMessage {
    ManagerMessage::ToolOutput {
        output_type: ToolOutputType::FunctionCallOutput,
        call_id: String::from(call_id),
        output: String::from(output),
    }
}

fn output_part(call_id: &str, output: &str) -> Part {
    Part::FunctionOutput {
        function_response: FunctionResponse {
            name: String::from(call_id),
            response: FunctionContent {
                name: String::from(call_id),
                content: String::from(output),
            },
        },
    }
}

#[test]
fn consecutive_tool_outputs_merge_into_one_function_entry() {
    let messages = vec![tool_calls_msg(), tool_output("c1", "one"), tool_output("c1", "two")];
    let contents = gemini_contents(&messages).unwrap();
    assert_eq!(contents.len(), 2);
    assert_eq!(contents[0].role, Role::Model);
    assert_eq!(
        contents[0].parts,
        vec![Part::FunctionCall {
            function_call: FunctionCall {
                name: String::from("lookup"),
                args: Some(String::from("{\"q\":1}")),
            },
        }]
    );
    assert_eq!(contents[1].role, Role::Function);
    assert_eq!(contents[1].parts, vec![output_part("c1", "one"), output_part("c1", "two")]);
}

#[test]
fn tool_output_after_text_starts_a_new_entry() {
    let messages = vec![text(ManagerRole::User, "hi"), tool_output("c7", "out")];
    let contents = gemini_contents(&messages).unwrap();
    assert_eq!(contents.len(), 2);
    assert_eq!(contents[0].role, Role::User);
    assert_eq!(contents[0].parts, vec![Part::Text { text: String::from("hi") }]);
    assert_eq!(contents[1].role, Role::Function);
    assert_eq!(contents[1].parts, vec![output_part("c7", "out")]);
}

#[test]
fn assistant_text_becomes_a_model_entry() {
    let contents = gemini_contents(&vec![text(ManagerRole::Assistant, "sure")]).unwrap();
    assert_eq!(contents.len(), 1);
    assert_eq!(contents[0].role, Role::Model);
}

#[test]
fn system_text_is_unsupported() {
    let err = gemini_contents(&vec![text(ManagerRole::System, "be brief")]).unwrap_err();
    assert_eq!(err.status, 500);
}

#[test]
fn schema_stripping_removes_banned_keys_at_every_depth() {
    let schema = JsonVal::Obj(vec![
        (String::from("$schema"), JsonVal::Str(String::from("http://example/schema"))),
        (String::from("type"), JsonVal::Str(String::from("object"))),
        (
            String::from("properties"),
            JsonVal::Obj(vec![
                (String::from("additionalProperties"), JsonVal::Bool(false)),
                (String::from("q"), JsonVal::Str(String::from("keep"))),
            ]),
        ),
        (
            String::from("anyOf"),
            JsonVal::Arr(vec![JsonVal::Obj(vec![
                (String::from("$schema"), JsonVal::Str(String::from("dropped"))),
                (String::from("type"), JsonVal::Str(String::from("string"))),
            ])]),
        ),
    ]);
    let stripped = remove_keys(schema);
    assert_eq!(
        stripped,
        JsonVal::Obj(vec![
            (String::from("type"), JsonVal::Str(String::from("object"))),
            (
                String::from("properties"),
                JsonVal::Obj(vec![(String::from("q"), JsonVal::Str(String::from("keep")))]),
            ),
            (
                String::from("anyOf"),
                JsonVal::Arr(vec![JsonVal::Obj(vec![(
                    String::from("type"),
                    JsonVal::Str(String::from("string")),
                )])]),
            ),
        ])
    );
}

#[test]
fn schema_stripping_reaches_objects_nested_through_arrays() {
    // Schemas nest alternatives inside arrays; the banned members must
    // fall wherever they stand.
    let schema = JsonVal::Obj(vec![(
        String::from("oneOf"),
        JsonVal::Arr(vec![JsonVal::Arr(vec![JsonVal::Obj(vec![(
            String::from("additionalProperties"),
            JsonVal::Bool(false),
        )])])]),
    )]);
    let stripped = remove_keys(schema);
    assert_eq!(
        stripped,
        JsonVal::Obj(vec![(
            String::from("oneOf"),
            JsonVal::Arr(vec![JsonVal::Arr(vec![JsonVal::Obj(Vec::new())])]),
        )])
    );
}

#[test]
fn declarations_strip_schemas_and_default_descriptions() {
    let tool = gemini_tool(&vec![ToolSpec {
        name: String::from("lookup"),
        description: None,
        input_schema: JsonVal::Obj(vec![(
            String::from("additionalProperties"),
            JsonVal::Bool(false),
        )]),
    }]);
    assert_eq!(tool.function_declarations.len(), 1);
    assert_eq!(tool.function_declarations[0].name, String::from("lookup"));
    assert_eq!(tool.function_declarations[0].description, String::new());
    assert_eq!(tool.function_declarations[0].parameters, JsonVal::Obj(Vec::new()));
}

#[test]
fn request_holds_contents_and_one_tool_entry() {
    let body = ManagerBody {
        messages: vec![text(ManagerRole::User, "hi")],
        temperature: None,
        max_tokens: None,
        top_p: None,
    };
    let request: RequestBody = gemini_request(&body, &Vec::new()).unwrap();
    assert_eq!(request.contents.len(), 1);
    let tools = request.tools.unwrap();
    assert_eq!(tools.len(), 1);
    assert_eq!(tools[0].function_declarations.len(), 0);
}

fn usage_sample() -> UsageMetadata {
    UsageMetadata { prompt_token_count: 7, candidates_token_count: 2, total_token_count: 9 }
}

fn response_with(parts: Vec<Part>) -> ResponseBody {
    ResponseBody {
        candidates: vec![Candidate {
            content: Message { role: Role::Model, parts },
            finish_reason: FinishReason::Stop,
        }],
        usage_metadata: usage_sample(),
    }
}

#[test]
fn text_part_is_one_text_decision_and_usage_maps_over() {
    let (decisions, usage) =
        gemini_decisions(response_with(vec![Part::Text { text: String::from("hello") }])).unwrap();
    assert_eq!(decisions, vec![ModelDecision::TextMessage(String::from("hello"))]);
    assert_eq!(usage, UsageTokens { completion_tokens: 2, prompt_tokens: 7, total_tokens: 9 });
}

#[test]
fn consecutive_function_calls_group_into_one_decision_with_fresh_ids() {
    let parts = vec![
        Part::FunctionCall {
            function_call: FunctionCall { name: String::from("a"), args: None },
        },
        Part::FunctionCall {
            function_call: FunctionCall {
                name: String::from("b"),
                args: Some(String::from("{\"n\":2}")),
            },
        },
    ];
    let (decisions, _) = gemini_decisions(response_with(parts)).unwrap();
    assert_eq!(decisions.len(), 1);
    match &decisions[0] {
        ModelDecision::ToolCalls(calls) => {
            assert_eq!(calls.len(), 2);
            assert_eq!(calls[0].name, String::from("a"));
            assert_eq!(calls[0].arguments, None);
            assert_eq!(calls[1].name, String::from("b"));
            assert_eq!(calls[1].arguments, Some(String::from("{\"n\":2}")));
            for call in calls {
                assert_eq!(call.id.len(), 24);
                assert!(call.id.chars().all(|c| c.is_ascii_alphanumeric()));
            }
        }
        other => panic!("expected one tool-call decision, got {other:?}"),
    }
}

#[test]
fn text_between_function_calls_splits_the_groups() {
    let parts = vec![
        Part::FunctionCall {
            function_call: FunctionCall { name: String::from("a"), args: None },
        },
        Part::Text { text: String::from("thinking") },
        Part::FunctionCall {
            function_call: FunctionCall { name: String::from("b"), args: None },
        },
    ];
    let (decisions, _) = gemini_decisions(response_with(parts)).unwrap();
    assert_eq!(decisions.len(), 3);
    assert!(matches!(&decisions[0], ModelDecision::ToolCalls(calls) if calls.len() == 1));
    assert_eq!(decisions[1], ModelDecision::TextMessage(String::from("thinking")));
    assert!(matches!(&decisions[2], ModelDecision::ToolCalls(calls) if calls.len() == 1));
}

#[test]
fn function_response_part_in_an_answer_is_a_protocol_error() {
    let err = gemini_decisions(response_with(vec![output_part("c1", "x")])).unwrap_err();
    assert_eq!(err.status, 500);
}

#[test]
fn empty_candidate_list_is_a_protocol_error() {
    let response = ResponseBody { candidates: Vec::new(), usage_metadata: usage_sample() };
    assert_eq!(gemini_decisions(response).unwrap_err().status, 500);
}
