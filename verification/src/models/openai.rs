use vstd::prelude::*;

use crate::error::Error;
use crate::json::{JsonVal, JsonView};
use crate::mcp::{ToolCall as GeneralToolCall, ToolCallView as GeneralToolCallView, ToolSpec, ToolSpecView};
use crate::models::{
    ManagerBody, Message as ManagerMessage, MessageView as ManagerMessageView, ModelDecision,
    DecisionView, Role, TextMessage, UsageTokens,
};

verus! {

// The request and response shapes of the OpenAI-compatible chat protocol,
// which the Azure and Anthropic adapters reuse.

/// The only tool kind the protocol knows.
#[derive(Clone, Copy, Debug, PartialEq, Eq, Structural)]
pub enum ToolType {
    Function,
}

/// The tool-choice mode sent with every request.
#[derive(Clone, Copy, Debug, PartialEq, Eq, Structural)]
pub enum ToolChoice {
    Auto,
}

/// The name and JSON-encoded arguments of one tool call on the wire.
#[derive(Debug, PartialEq)]
pub struct ToolCallParams {
    pub arguments: String,
    pub name: String,
}

/// Mathematical model of [`ToolCallParams`].
pub struct ToolCallParamsView {
    pub arguments: Seq<char>,
    pub name: Seq<char>,
}

impl DeepView for ToolCallParams {
    type V = ToolCallParamsView;

    open spec fn deep_view(&self) -> ToolCallParamsView {
        ToolCallParamsView { arguments: self.arguments@, name: self.name@ }
    }
}

/// One tool call as the protocol writes it.
#[derive(Debug, PartialEq)]
pub struct ToolCall {
    pub function: ToolCallParams,
    pub call_type: ToolType,
    pub id: String,
}

/// Mathematical model of a wire [`ToolCall`].
pub struct ToolCallView {
    pub function: ToolCallParamsView,
    pub call_type: ToolType,
    pub id: Seq<char>,
}

impl DeepView for ToolCall {
    type V = ToolCallView;

    open spec fn deep_view(&self) -> ToolCallView {
        ToolCallView {
            function: self.function.deep_view(),
            call_type: self.call_type,
            id: self.id@,
        }
    }
}

/// One message as the protocol writes it.
#[derive(Debug, PartialEq)]
pub enum Message {
    TextMessage(TextMessage),
    ToolCalls { role: Role, tool_calls: Vec<ToolCall> },
    ToolOutput { role: Role, tool_call_id: String, content: String },
}

/// Mathematical model of a wire [`Message`].
pub enum MessageView {
    Text { role: Role, content: Seq<char> },
    ToolCalls { role: Role, calls: Seq<ToolCallView> },
    ToolOutput { role: Role, tool_call_id: Seq<char>, content: Seq<char> },
}

impl DeepView for Message {
    type V = MessageView;

    open spec fn deep_view(&self) -> MessageView {
        match self {
            Message::TextMessage(t) => MessageView::Text { role: t.role, content: t.content@ },
            Message::ToolCalls { role, tool_calls } => MessageView::ToolCalls {
                role: *role,
                calls: tool_calls.deep_view(),
            },
            Message::ToolOutput { role, tool_call_id, content } => MessageView::ToolOutput {
                role: *role,
                tool_call_id: tool_call_id@,
                content: content@,
            },
        }
    }
}

/// A tool's declaration: name, description and JSON parameter schema.
#[derive(Debug, PartialEq)]
pub struct Function {
    pub name: String,
    pub description: String,
    pub parameters: JsonVal,
}

/// Mathematical model of a [`Function`].
pub struct FunctionView {
    pub name: Seq<char>,
    pub description: Seq<char>,
    pub parameters: JsonView,
}

impl DeepView for Function {
    type V = FunctionView;

    open spec fn deep_view(&self) -> FunctionView {
        FunctionView {
            name: self.name@,
            description: self.description@,
            parameters: self.parameters.deep_view(),
        }
    }
}

/// One entry of the request's tool list.
#[derive(Debug, PartialEq)]
pub struct Tool {
    pub tool_type: ToolType,
    pub function: Function,
}

/// Mathematical model of a [`Tool`].
pub struct ToolView {
    pub tool_type: ToolType,
    pub function: FunctionView,
}

impl DeepView for Tool {
    type V = ToolView;

    open spec fn deep_view(&self) -> ToolView {
        ToolView { tool_type: self.tool_type, function: self.function.deep_view() }
    }
}

/// The full request body of the OpenAI-compatible protocol.
#[derive(Debug, PartialEq)]
pub struct RequestBody {
    pub messages: Vec<Message>,
    pub temperature: Option<String>,
    pub max_tokens: Option<i64>,
    pub top_p: Option<String>,
    pub tools: Option<Vec<Tool>>,
    pub tool_choice: ToolChoice,
    pub model: String,
}

/// Mathematical model of a [`RequestBody`].
pub struct RequestBodyView {
    pub messages: Seq<MessageView>,
    pub temperature: Option<Seq<char>>,
    pub max_tokens: Option<i64>,
    pub top_p: Option<Seq<char>>,
    pub tools: Option<Seq<ToolView>>,
    pub tool_choice: ToolChoice,
    pub model: Seq<char>,
}

impl DeepView for RequestBody {
    type V = RequestBodyView;

    open spec fn deep_view(&self) -> RequestBodyView {
        RequestBodyView {
            messages: self.messages.deep_view(),
            temperature: self.temperature.deep_view(),
            max_tokens: self.max_tokens,
            top_p: self.top_p.deep_view(),
            tools: self.tools.deep_view(),
            tool_choice: self.tool_choice,
            model: self.model@,
        }
    }
}

/// Why a provider turn ended.
#[derive(Clone, Copy, Debug, PartialEq, Eq, Structural)]
pub enum FinishReason {
    ToolCalls,
    Stop,
}

/// One answer candidate of a response.
#[derive(Debug, PartialEq)]
pub struct Choice {
    pub finish_reason: FinishReason,
    pub message: Message,
}

/// Mathematical model of a [`Choice`].
pub struct ChoiceView {
    pub finish_reason: FinishReason,
    pub message: MessageView,
}

impl DeepView for Choice {
    type V = ChoiceView;

    open spec fn deep_view(&self) -> ChoiceView {
        ChoiceView { finish_reason: self.finish_reason, message: self.message.deep_view() }
    }
}

/// The response body of the OpenAI-compatible protocol.
#[derive(Debug, PartialEq)]
pub struct ResponseBody {
    pub choices: Vec<Choice>,
    pub usage: UsageTokens,
}

/// Mathematical model of a [`ResponseBody`].
pub struct ResponseBodyView {
    pub choices: Seq<ChoiceView>,
    pub usage: UsageTokens,
}

impl DeepView for ResponseBody {
    type V = ResponseBodyView;

    open spec fn deep_view(&self) -> ResponseBodyView {
        ResponseBodyView { choices: self.choices.deep_view(), usage: self.usage }
    }
}

// ---------------------------------------------------------------------
// Canonical conversation -> wire request

/// The `arguments` text sent for a canonical call: its stored JSON object
/// text, or the JSON `null` literal when the model gave no arguments.
pub open spec fn spec_arguments_text(args: Option<Seq<char>>) -> Seq<char> {
    match args {
        Some(t) => t,
        None => "null"@,
    }
}

/// How one canonical tool call is written on the wire.
pub open spec fn spec_openai_call(c: GeneralToolCallView) -> ToolCallView {
    ToolCallView {
        function: ToolCallParamsView {
            arguments: spec_arguments_text(c.arguments),
            name: c.name,
        },
        call_type: ToolType::Function,
        id: c.id,
    }
}


/// The wire form of a whole call batch, call by call.
pub open spec fn spec_openai_calls(calls: Seq<GeneralToolCallView>) -> Seq<ToolCallView> {
    calls.map_values(|c: GeneralToolCallView| spec_openai_call(c))
}

/// How one canonical message is written on the wire: text and tool-call
/// batches map field for field, and a tool output becomes a `Tool`-role
/// message correlated by `tool_call_id`.
pub open spec fn spec_openai_message(m: ManagerMessageView) -> MessageView {
    match m {
        ManagerMessageView::Text { role, content } => MessageView::Text { role, content },
        ManagerMessageView::ToolCalls { role, calls } => MessageView::ToolCalls {
            role,
            calls: spec_openai_calls(calls),
        },
        ManagerMessageView::ToolOutput { output_type, call_id, output } => MessageView::ToolOutput {
            role: Role::Tool,
            tool_call_id: call_id,
            content: output,
        },
    }
}

/// How one catalog entry is declared to the provider: an absent description
/// becomes the empty string, and the schema is passed through unchanged.
pub open spec fn spec_openai_tool(t: ToolSpecView) -> ToolView {
    ToolView {
        tool_type: ToolType::Function,
        function: FunctionView {
            name: t.name,
            description: match t.description {
                Some(d) => d,
                None => Seq::empty(),
            },
            parameters: t.input_schema,
        },
    }
}


/// The wire form of a whole conversation, message by message.
pub open spec fn spec_openai_messages(messages: Seq<ManagerMessageView>) -> Seq<MessageView> {
    messages.map_values(|m: ManagerMessageView| spec_openai_message(m))
}

/// The declared tool list, entry by entry.
pub open spec fn spec_openai_tools(specs: Seq<ToolSpecView>) -> Seq<ToolView> {
    specs.map_values(|t: ToolSpecView| spec_openai_tool(t))
}

fn openai_call(c: &GeneralToolCall) -> (r: ToolCall)
    ensures
        r.deep_view() == spec_openai_call(c.deep_view()),
{
    ToolCall {
        function: ToolCallParams {
            arguments: match &c.arguments {
                Some(t) => t.clone(),
                None => String::from_str("null"),
            },
            name: c.name.clone(),
        },
        call_type: ToolType::Function,
        id: c.id.clone(),
    }
}

fn openai_calls(calls: &Vec<GeneralToolCall>) -> (r: Vec<ToolCall>)
    ensures
        r.deep_view() == spec_openai_calls(calls.deep_view()),
{
    let mut r: Vec<ToolCall> = Vec::new();
    let mut i: usize = 0;
    while i < calls.len()
        invariant
            i <= calls.len(),
            r@.len() == i,
            r.deep_view() =~= spec_openai_calls(calls.deep_view().subrange(0, i as int)),
        decreases calls.len() - i,
    {
        let converted = openai_call(&calls[i]);
        r.push(converted);
        proof {
            assert(calls.deep_view()[i as int] == calls@[i as int].deep_view());
            assert(converted.deep_view() == spec_openai_call(calls.deep_view()[i as int]));
            assert(calls.deep_view().subrange(0, i + 1) =~= calls.deep_view().subrange(
                0,
                i as int,
            ).push(calls.deep_view()[i as int]));
            let sub = calls.deep_view().subrange(0, i + 1);
            assert forall|j: int| 0 <= j < r@.len() implies r.deep_view()[j]
                == spec_openai_calls(sub)[j] by {
                assert(r.deep_view()[j] == r@[j].deep_view());
                assert(spec_openai_calls(sub)[j] == spec_openai_call(sub[j]));
                if j < i {
                    assert(r@[j].deep_view() == spec_openai_calls(
                        calls.deep_view().subrange(0, i as int),
                    )[j]);
                } else {
                    assert(r@[j] == converted);
                }
            }
            assert(r.deep_view().len() == r@.len());
            assert(r.deep_view() =~= spec_openai_calls(calls.deep_view().subrange(0, i + 1)));
        }
        i += 1;
    }
    proof {
        assert(calls.deep_view().subrange(0, calls.deep_view().len() as int) =~= calls.deep_view());
    }
    r
}

fn openai_message(m: &ManagerMessage) -> (r: Message)
    ensures
        r.deep_view() == spec_openai_message(m.deep_view()),
{
    match m {
        ManagerMessage::TextMessage(t) => Message::TextMessage(t.clone()),
        ManagerMessage::ToolCalls { role, tool_calls } => Message::ToolCalls {
            role: *role,
            tool_calls: openai_calls(tool_calls),
        },
        ManagerMessage::ToolOutput { output_type, call_id, output } => Message::ToolOutput {
            role: Role::Tool,
            tool_call_id: call_id.clone(),
            content: output.clone(),
        },
    }
}

/// Writes a whole canonical conversation in the protocol's message shape,
/// in order, one wire message per canonical message.
pub fn openai_messages(messages: &Vec<ManagerMessage>) -> (r: Vec<Message>)
    ensures
        r.deep_view() == spec_openai_messages(messages.deep_view()),
{
    let mut r: Vec<Message> = Vec::new();
    let mut i: usize = 0;
    while i < messages.len()
        invariant
            i <= messages.len(),
            r@.len() == i,
            r.deep_view() =~= spec_openai_messages(messages.deep_view().subrange(0, i as int)),
        decreases messages.len() - i,
    {
        let converted = openai_message(&messages[i]);
        r.push(converted);
        proof {
            assert(messages.deep_view()[i as int] == messages@[i as int].deep_view());
            assert(converted.deep_view() == spec_openai_message(messages.deep_view()[i as int]));
            assert(messages.deep_view().subrange(0, i + 1) =~= messages.deep_view().subrange(
                0,
                i as int,
            ).push(messages.deep_view()[i as int]));
            let sub = messages.deep_view().subrange(0, i + 1);
            assert forall|j: int| 0 <= j < r@.len() implies r.deep_view()[j]
                == spec_openai_messages(sub)[j] by {
                assert(r.deep_view()[j] == r@[j].deep_view());
                assert(spec_openai_messages(sub)[j] == spec_openai_message(sub[j]));
                if j < i {
                    assert(r@[j].deep_view() == spec_openai_messages(
                        messages.deep_view().subrange(0, i as int),
                    )[j]);
                } else {
                    assert(r@[j] == converted);
                }
            }
            assert(r.deep_view().len() == r@.len());
            assert(r.deep_view() =~= spec_openai_messages(messages.deep_view().subrange(0, i + 1)));
        }
        i += 1;
    }
    proof {
        assert(messages.deep_view().subrange(0, messages.deep_view().len() as int)
            =~= messages.deep_view());
    }
    r
}

/// Declares the filtered catalog to the provider, one entry per tool, in
/// catalog order.
pub fn openai_tools(specs: &Vec<ToolSpec>) -> (r: Vec<Tool>)
    ensures
        r.deep_view() == spec_openai_tools(specs.deep_view()),
{
    let mut r: Vec<Tool> = Vec::new();
    let mut i: usize = 0;
    while i < specs.len()
        invariant
            i <= specs.len(),
            r@.len() == i,
            r.deep_view() =~= spec_openai_tools(specs.deep_view().subrange(0, i as int)),
        decreases specs.len() - i,
    {
        let spec_entry = &specs[i];
        let description = match &spec_entry.description {
            Some(d) => d.clone(),
            None => String::new(),
        };
        let converted = Tool {
            tool_type: ToolType::Function,
            function: Function {
                name: spec_entry.name.clone(),
                description,
                parameters: spec_entry.input_schema.clone_val(),
            },
        };
        r.push(converted);
        proof {
            assert(specs.deep_view()[i as int] == specs@[i as int].deep_view());
            assert(converted.deep_view() == spec_openai_tool(specs.deep_view()[i as int]));
            assert(specs.deep_view().subrange(0, i + 1) =~= specs.deep_view().subrange(
                0,
                i as int,
            ).push(specs.deep_view()[i as int]));
            let sub = specs.deep_view().subrange(0, i + 1);
            assert forall|j: int| 0 <= j < r@.len() implies r.deep_view()[j]
                == spec_openai_tools(sub)[j] by {
                assert(r.deep_view()[j] == r@[j].deep_view());
                assert(spec_openai_tools(sub)[j] == spec_openai_tool(sub[j]));
                if j < i {
                    assert(r@[j].deep_view() == spec_openai_tools(
                        specs.deep_view().subrange(0, i as int),
                    )[j]);
                } else {
                    assert(r@[j] == converted);
                }
            }
            assert(r.deep_view().len() == r@.len());
            assert(r.deep_view() =~= spec_openai_tools(specs.deep_view().subrange(0, i + 1)));
        }
        i += 1;
    }
    proof {
        assert(specs.deep_view().subrange(0, specs.deep_view().len() as int) =~= specs.deep_view());
    }
    r
}

/// Builds the full OpenAI request for one model call: the translated
/// conversation, the caller's generation parameters unchanged, the declared
/// tools, automatic tool choice, and the configured model id.
pub fn openai_request(body: &ManagerBody, tools: Vec<Tool>, model: String) -> (r: RequestBody)
    ensures
        r.deep_view() == (RequestBodyView {
            messages: spec_openai_messages(body.deep_view().messages),
            temperature: body.deep_view().temperature,
            max_tokens: body.deep_view().max_tokens,
            top_p: body.deep_view().top_p,
            tools: Some(tools.deep_view()),
            tool_choice: ToolChoice::Auto,
            model: model@,
        }),
{
    RequestBody {
        messages: openai_messages(&body.messages),
        temperature: match &body.temperature {
            Some(t) => Some(t.clone()),
            None => None,
        },
        max_tokens: body.max_tokens,
        top_p: match &body.top_p {
            Some(t) => Some(t.clone()),
            None => None,
        },
        tools: Some(tools),
        tool_choice: ToolChoice::Auto,
        model,
    }
}

// ---------------------------------------------------------------------
// Wire response -> canonical decisions

/// How serde_json classifies a tool call's `arguments` text when read as an
/// optional JSON object: `None` when the text is not valid JSON of that
/// shape, `Some(false)` on the JSON `null` literal, `Some(true)` on a JSON
/// object.
pub uninterp spec fn arguments_class(s: Seq<char>) -> Option<bool>;

/// Relies on serde_json::from_str reading an `Option` of a JSON object map:
/// JSON `null` decodes to `None`, a JSON object decodes to `Some`, and any
/// other text is an error.
#[verifier::external_body]
fn parse_tool_arguments(s: &str) -> (r: Option<Option<String>>)
    ensures
        r is None <==> arguments_class(s@) is None,
        arguments_class(s@) == Some(false) ==> r == Some(Option::<String>::None),
        arguments_class(s@) == Some(true) ==> (match r {
            Some(Some(t)) => t@ == s@,
            _ => false,
        }),
{
    match serde_json::from_str::<Option<serde_json::Map<String, serde_json::Value>>>(s) {
        Err(_) => None,
        Ok(None) => Some(None),
        Ok(Some(_)) => Some(Some(s.to_owned())),
    }
}

/// Whether every call of the batch carries arguments serde_json accepts.
pub open spec fn spec_calls_valid(calls: Seq<ToolCallView>) -> bool {
    forall|i: int|
        0 <= i < calls.len() ==> (#[trigger] arguments_class(
            calls[i].function.arguments,
        )) is Some
}

/// The canonical form of one wire tool call whose arguments parsed: the
/// object text is kept, and JSON `null` becomes absent arguments.
pub open spec fn spec_decode_call(c: ToolCallView) -> GeneralToolCallView {
    GeneralToolCallView {
        name: c.function.name,
        id: c.id,
        arguments: match arguments_class(c.function.arguments) {
            Some(true) => Some(c.function.arguments),
            _ => None,
        },
    }
}


/// The canonical form of a whole wire batch, call by call.
pub open spec fn spec_decoded_calls(calls: Seq<ToolCallView>) -> Seq<GeneralToolCallView> {
    calls.map_values(|c: ToolCallView| spec_decode_call(c))
}

/// What one answer candidate means: `stop` with a text message is one text
/// decision, `tool_calls` with a call batch whose arguments all parse is
/// one tool-call decision, and every other combination is a protocol error.
pub open spec fn spec_choice_decisions(c: ChoiceView) -> Option<Seq<DecisionView>> {
    match c.message {
        MessageView::Text { role, content } => if c.finish_reason is Stop {
            Some(seq![DecisionView::Text(content)])
        } else {
            None
        },
        MessageView::ToolCalls { role, calls } => if c.finish_reason is ToolCalls
            && spec_calls_valid(calls) {
            Some(seq![DecisionView::ToolCalls(spec_decoded_calls(calls))])
        } else {
            None
        },
        _ => None,
    }
}

fn decode_calls(calls: Vec<ToolCall>) -> (r: Result<Vec<GeneralToolCall>, Error>)
    ensures
        r is Ok <==> spec_calls_valid(calls.deep_view()),
        r matches Ok(decoded) ==> decoded.deep_view() == spec_decoded_calls(calls.deep_view()),
        r matches Err(e) ==> e.status == 500,
{
    let mut decoded: Vec<GeneralToolCall> = Vec::new();
    let mut i: usize = 0;
    while i < calls.len()
        invariant
            i <= calls.len(),
            forall|j: int|
                0 <= j < i ==> (#[trigger] arguments_class(
                    calls.deep_view()[j].function.arguments,
                )) is Some,
            decoded@.len() == i,
            decoded.deep_view() =~= spec_decoded_calls(calls.deep_view().subrange(0, i as int)),
        decreases calls.len() - i,
    {
        let call = &calls[i];
        let arguments = match parse_tool_arguments(call.function.arguments.as_str()) {
            Some(a) => a,
            None => {
                proof {
                    assert(arguments_class(calls.deep_view()[i as int].function.arguments)
                        is None);
                }
                return Err(Error::protocol(String::from_str("Unparsable tool call arguments")));
            },
        };
        let converted = GeneralToolCall {
            name: call.function.name.clone(),
            id: call.id.clone(),
            arguments,
        };
        decoded.push(converted);
        proof {
            assert(calls.deep_view()[i as int] == calls@[i as int].deep_view());
            assert(converted.deep_view() == spec_decode_call(calls.deep_view()[i as int]));
            assert(calls.deep_view().subrange(0, i + 1) =~= calls.deep_view().subrange(
                0,
                i as int,
            ).push(calls.deep_view()[i as int]));
            let sub = calls.deep_view().subrange(0, i + 1);
            assert forall|j: int| 0 <= j < decoded@.len() implies decoded.deep_view()[j]
                == spec_decoded_calls(sub)[j] by {
                assert(decoded.deep_view()[j] == decoded@[j].deep_view());
                assert(spec_decoded_calls(sub)[j] == spec_decode_call(sub[j]));
                if j < i {
                    assert(decoded@[j].deep_view() == spec_decoded_calls(
                        calls.deep_view().subrange(0, i as int),
                    )[j]);
                } else {
                    assert(decoded@[j] == converted);
                }
            }
            assert(decoded.deep_view().len() == decoded@.len());
            assert(decoded.deep_view() =~= spec_decoded_calls(calls.deep_view().subrange(0, i + 1)));
        }
        i += 1;
    }
    proof {
        assert(calls.deep_view().subrange(0, calls.deep_view().len() as int) =~= calls.deep_view());
    }
    Ok(decoded)
}

/// Reads one OpenAI-compatible response into canonical decisions and usage.
/// Only the first answer candidate counts; an empty candidate list, a
/// finish reason that does not match the message shape, or unparsable call
/// arguments are protocol errors, never coerced.
pub fn openai_decisions(response: ResponseBody) -> (r: Result<
    (Vec<ModelDecision>, UsageTokens),
    Error,
>)
    ensures
        r is Ok <==> (response.deep_view().choices.len() > 0 && spec_choice_decisions(
            response.deep_view().choices[0],
        ) is Some),
        r matches Ok(p) ==> {
            &&& Some(p.0.deep_view()) == spec_choice_decisions(response.deep_view().choices[0])
            &&& p.1 == response.usage
        },
        r matches Err(e) ==> e.status == 500,
{
    let ResponseBody { mut choices, usage } = response;
    if choices.len() == 0 {
        return Err(Error::protocol(String::from_str("Empty response from model")));
    }
    let choice = choices.remove(0);
    proof {
        assert(choice.deep_view() == response.deep_view().choices[0]);
    }
    match choice.message {
        Message::TextMessage(t) => {
            if let FinishReason::Stop = choice.finish_reason {
                let r = vec![ModelDecision::TextMessage(t.content)];
                proof {
                    assert(r.deep_view() =~= seq![DecisionView::Text(t.content@)]);
                }
                Ok((r, usage))
            } else {
                Err(Error::protocol(String::from_str("Unknown response shape")))
            }
        },
        Message::ToolCalls { role: _, tool_calls } => {
            if let FinishReason::ToolCalls = choice.finish_reason {
                let decoded = match decode_calls(tool_calls) {
                    Ok(d) => d,
                    Err(e) => return Err(e),
                };
                let r = vec![ModelDecision::ToolCalls(decoded)];
                proof {
                    assert(r.deep_view() =~= seq![
                        DecisionView::ToolCalls(decoded.deep_view()),
                    ]);
                }
                Ok((r, usage))
            } else {
                Err(Error::protocol(String::from_str("Unknown response shape")))
            }
        },
        _ => Err(Error::protocol(String::from_str("Unknown response shape"))),
    }
}

} // verus!
