use mcp_manager::json::JsonVal;
use mcp_manager::mcp::{ToolCall as GeneralToolCall, ToolSpec};
use mcp_manager::models::openai::{
    Choice, FinishReason, Message, RequestBody, ResponseBody, Tool, ToolCall, ToolCallParams,
    ToolChoice, ToolType, openai_decisions, openai_messages, openai_request, openai_tools,
};
use mcp_manager::models::anthropic::{anthropic_headers, anthropic_request};
use mcp_manager::models::azure::{azure_auth_supported, azure_request};
use mcp_manager::auth::{Auth, AuthLocation};
use mcp_manager::models::{
    ManagerBody, Message as ManagerMessage, ModelDecision, Role, TextMessage, ToolOutputType,
    UsageTokens,
};

fn user_text(content: &str) -> ManagerMessage {
    ManagerMessage::TextMessage(TextMessage { role: Role::User, content: String::from(content) })
}

fn sample_body() -> ManagerBody {
    ManagerBody {
        messages: vec![
            user_text("hi"),
            ManagerMessage::ToolCalls {
                role: Role::Assistant,
                tool_calls: vec![GeneralToolCall {
                    name: String::from("lookup"),
                    id: String::from("call-1"),
                    arguments: Some(String::from("{\"q\":\"x\"}")),
                }],
            },
            ManagerMessage::ToolOutput {
                output_type: ToolOutputType::FunctionCallOutput,
                call_id: String::from("call-1"),
                output: String::from("found"),
            },
        ],
        temperature: Some(String::from("0.5")),
        max_tokens: Some(128),
        top_p: None,
    }
}

#[test]
fn openai_message_mapping_is_field_for_field() {
    let wire = openai_messages(&sample_body().messages);
    assert_eq!(wire.len(), 3);
    assert_eq!(
        wire[0],
        Message::TextMessage(TextMessage { role: Role::User, content: String::from("hi") })
    );
    assert_eq!(
        wire[1],
        Message::ToolCalls {
            role: Role::Assistant,
            tool_calls: vec![ToolCall {
                function: ToolCallParams {
                    arguments: String::from("{\"q\":\"x\"}"),
                    name: String::from("lookup"),
                },
                call_type: ToolType::Function,
                id: String::from("call-1"),
            }],
        }
    );
    assert_eq!(
        wire[2],
        Message::ToolOutput {
            role: Role::Tool,
            tool_call_id: String::from("call-1"),
            content: String::from("found"),
        }
    );
}

#[test]
fn openai_absent_arguments_become_json_null() {
    let messages = vec![ManagerMessage::ToolCalls {
        role: Role::Assistant,
        tool_calls: vec![GeneralToolCall {
            name: String::from("ping"),
            id: String::from("c9"),
            arguments: None,
        }],
    }];
    let wire = openai_messages(&messages);
    match &wire[0] {
        Message::ToolCalls { tool_calls, .. } => {
            assert_eq!(tool_calls[0].function.arguments, String::from("null"));
        }
        other => panic!("unexpected wire message: {other:?}"),
    }
}

#[test]
fn openai_request_carries_parameters_model_and_tools() {
    let tools = openai_tools(&vec![ToolSpec {
        name: String::from("lookup"),
        description: None,
        input_schema: JsonVal::Obj(Vec::new()),
    }]);
    let request = openai_request(&sample_body(), tools, String::from("gpt-test"));
    assert_eq!(request.model, String::from("gpt-test"));
    assert_eq!(request.temperature, Some(String::from("0.5")));
    assert_eq!(request.max_tokens, Some(128));
    assert_eq!(request.top_p, None);
    assert_eq!(request.tool_choice, ToolChoice::Auto);
    let tools = request.tools.unwrap();
    assert_eq!(tools.len(), 1);
    assert_eq!(tools[0].function.name, String::from("lookup"));
    assert_eq!(tools[0].function.description, String::new());
    assert_eq!(tools[0].function.parameters, JsonVal::Obj(Vec::new()));
}

fn usage_sample() -> UsageTokens {
    UsageTokens { completion_tokens: 3, prompt_tokens: 5, total_tokens: 8 }
}

#[test]
fn stop_with_text_is_one_text_decision() {
    let response = ResponseBody {
        choices: vec![Choice {
            finish_reason: FinishReason::Stop,
            message: Message::TextMessage(TextMessage {
                role: Role::Assistant,
                content: String::from("hello"),
            }),
        }],
        usage: usage_sample(),
    };
    let (decisions, usage) = openai_decisions(response).unwrap();
    assert_eq!(decisions, vec![ModelDecision::TextMessage(String::from("hello"))]);
    assert_eq!(usage, usage_sample());
}

fn tool_call_response(arguments: &str) -> ResponseBody {
    ResponseBody {
        choices: vec![Choice {
            finish_reason: FinishReason::ToolCalls,
            message: Message::ToolCalls {
                role: Role::Assistant,
                tool_calls: vec![ToolCall {
                    function: ToolCallParams {
                        arguments: String::from(arguments),
                        name: String::from("lookup"),
                    },
                    call_type: ToolType::Function,
                    id: String::from("c1"),
                }],
            },
        }],
        usage: usage_sample(),
    }
}

#[test]
fn tool_call_arguments_are_parsed_back() {
    let (decisions, _) = openai_decisions(tool_call_response("{\"q\":\"x\"}")).unwrap();
    assert_eq!(
        decisions,
        vec![ModelDecision::ToolCalls(vec![GeneralToolCall {
            name: String::from("lookup"),
            id: String::from("c1"),
            arguments: Some(String::from("{\"q\":\"x\"}")),
        }])]
    );
}

#[test]
fn tool_call_null_arguments_become_absent() {
    let (decisions, _) = openai_decisions(tool_call_response("null")).unwrap();
    assert_eq!(
        decisions,
        vec![ModelDecision::ToolCalls(vec![GeneralToolCall {
            name: String::from("lookup"),
            id: String::from("c1"),
            arguments: None,
        }])]
    );
}

#[test]
fn unparsable_tool_call_arguments_are_a_protocol_error() {
    let err = openai_decisions(tool_call_response("{not json")).unwrap_err();
    assert_eq!(err.status, 500);
    let err = openai_decisions(tool_call_response("[1,2]")).unwrap_err();
    assert_eq!(err.status, 500);
}

#[test]
fn empty_choice_list_is_a_protocol_error() {
    let response = ResponseBody { choices: Vec::new(), usage: usage_sample() };
    assert_eq!(openai_decisions(response).unwrap_err().status, 500);
}

#[test]
fn mismatched_finish_reason_and_shape_is_a_protocol_error() {
    let response = ResponseBody {
        choices: vec![Choice {
            finish_reason: FinishReason::ToolCalls,
            message: Message::TextMessage(TextMessage {
                role: Role::Assistant,
                content: String::from("hello"),
            }),
        }],
        usage: usage_sample(),
    };
    assert_eq!(openai_decisions(response).unwrap_err().status, 500);
}

#[test]
fn only_the_first_choice_counts() {
    let mut response = tool_call_response("null");
    response.choices.push(Choice {
        finish_reason: FinishReason::Stop,
        message: Message::TextMessage(TextMessage {
            role: Role::Assistant,
            content: String::from("ignored"),
        }),
    });
    let (decisions, _) = openai_decisions(response).unwrap();
    assert!(matches!(decisions[0], ModelDecision::ToolCalls(_)));
}

#[test]
fn azure_request_has_no_model_field_but_same_messages() {
    let request = azure_request(&sample_body(), Vec::new());
    assert_eq!(request.messages, openai_messages(&sample_body().messages));
    assert_eq!(request.temperature, Some(String::from("0.5")));
    assert_eq!(request.tools, Some(Vec::<Tool>::new()));
}

#[test]
fn azure_accepts_only_header_api_keys() {
    let header = Auth::ApiKey(AuthLocation::Header(
        String::from("api-key"),
        String::from("SECRET-REDACTED"),
    ));
    assert!(azure_auth_supported(&header));
    let params = Auth::ApiKey(AuthLocation::Params(
        String::from("key"),
        String::from("SECRET-REDACTED"),
    ));
    assert!(!azure_auth_supported(&params));
    assert!(!azure_auth_supported(&Auth::NoAuth));
    assert!(!azure_auth_supported(&Auth::OAuth2 {
        url: String::from("https://login.example/token"),
        client_id: String::from("id"),
        client_secret: String::from("SECRET-REDACTED"),
        scope: None,
    }));
}

#[test]
fn anthropic_request_is_openai_shaped_with_model() {
    let request: RequestBody =
        anthropic_request(&sample_body(), Vec::new(), String::from("model-v1"));
    assert_eq!(request.model, String::from("model-v1"));
    assert_eq!(request.messages, openai_messages(&sample_body().messages));
}

#[test]
fn anthropic_version_header_is_the_only_extra_header() {
    let headers = anthropic_headers(String::from("2023-06-01"));
    assert_eq!(headers, vec![(String::from("anthropic_version"), String::from("2023-06-01"))]);
}
