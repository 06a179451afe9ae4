use vstd::prelude::*;

use rand::distr::{Alphanumeric, SampleString};

use crate::error::Error;
use crate::json::{JsonVal, JsonView, json_view, json_view_list, json_view_members, strip_keys,
    strip_list, strip_members};
use crate::mcp::{ToolCall as GeneralToolCall, ToolCallView as GeneralToolCallView, ToolSpec,
    ToolSpecView};
use crate::models::{
    ManagerBody, Message as ManagerMessage, MessageView as ManagerMessageView, ModelDecision,
    DecisionView, Role as ManagerRole, UsageTokens, lemma_vec_push_deep_view,
    lemma_vec_update_deep_view,
};

verus! {

/// The schema member names the Gemini API rejects and the adapter strips
/// from every tool parameter schema before sending it.
pub open spec fn banned_schema_keys() -> Set<Seq<char>> {
    set!["$schema"@, "additionalProperties"@]
}

/// Whether `k` names a member that must not reach the Gemini API.
fn is_banned_key(k: &String) -> (r: bool)
    ensures
        r == banned_schema_keys().contains(k@),
{
    let schema_key = String::from_str("$schema");
    let extras_key = String::from_str("additionalProperties");
    k.eq(&schema_key) || k.eq(&extras_key)
}

/// Drops the members the Gemini API rejects from a schema, at every
/// nesting depth: from the object itself, from every object in member
/// position, and from every object inside an array.
pub fn remove_keys(v: JsonVal) -> (r: JsonVal)
    ensures
        json_view(r) == strip_keys(json_view(v), banned_schema_keys()),
    decreases v, 1int,
{
    match v {
        JsonVal::Obj(fields) => {
            proof {
                assert(decreases_to!(v => fields@));
            }
            JsonVal::Obj(remove_keys_members(fields))
        },
        JsonVal::Arr(items) => {
            proof {
                assert(decreases_to!(v => items@));
            }
            JsonVal::Arr(remove_keys_list(items))
        },
        other => other,
    }
}

/// Strips every element of an array.
fn remove_keys_list(items: Vec<JsonVal>) -> (r: Vec<JsonVal>)
    ensures
        json_view_list(r@) == strip_list(json_view_list(items@), banned_schema_keys()),
    decreases items@, 0int,
{
    let ghost entry_items: Seq<JsonVal> = items@;
    let mut items = items;
    if items.len() == 0 {
        items
    } else {
        let head = items.remove(0);
        let ghost tail: Seq<JsonVal> = entry_items.drop_first();
        proof {
            assert(items@ =~= tail);
            assert(decreases_to!(entry_items => entry_items.subrange(1, entry_items.len() as int)));
            assert(entry_items.subrange(1, entry_items.len() as int) =~= items@);
        }
        let rest = remove_keys_list(items);
        proof {
            assert(entry_items[0] == head);
            assert(json_view_list(entry_items) == seq![json_view(head)]
                + json_view_list(tail));
            assert(json_view_list(entry_items).drop_first() =~= json_view_list(tail));
            assert(json_view_list(entry_items)[0] == json_view(head));
            assert(decreases_to!(entry_items => head));
        }
        let stripped = remove_keys(head);
        let ghost rest_view: Seq<JsonVal> = rest@;
        let mut out: Vec<JsonVal> = Vec::new();
        out.push(stripped);
        let mut rest = rest;
        out.append(&mut rest);
        proof {
            assert(out@.drop_first() =~= rest_view);
            assert(out@[0] == stripped);
            assert(json_view_list(out@) == seq![json_view(stripped)]
                + json_view_list(rest_view));
        }
        out
    }
}

/// Drops the banned members from one member list and strips the kept values.
fn remove_keys_members(fields: Vec<(String, JsonVal)>) -> (r: Vec<(String, JsonVal)>)
    ensures
        json_view_members(r@) == strip_members(json_view_members(fields@), banned_schema_keys()),
    decreases fields@, 0int,
{
    let ghost entry_fields: Seq<(String, JsonVal)> = fields@;
    let mut fields = fields;
    if fields.len() == 0 {
        fields
    } else {
        let head = fields.remove(0);
        let ghost tail: Seq<(String, JsonVal)> = entry_fields.drop_first();
        proof {
            assert(fields@ =~= tail);
            assert(decreases_to!(entry_fields => entry_fields.subrange(1, entry_fields.len() as int)));
            assert(entry_fields.subrange(1, entry_fields.len() as int) =~= fields@);
        }
        let rest = remove_keys_members(fields);
        proof {
            assert(entry_fields[0] == head);
            assert(json_view_members(entry_fields) == seq![(head.0@, json_view(head.1))]
                + json_view_members(tail));
            assert(json_view_members(entry_fields).drop_first() =~= json_view_members(tail));
            assert(json_view_members(entry_fields)[0] == (head.0@, json_view(head.1)));
        }
        if is_banned_key(&head.0) {
            rest
        } else {
            proof {
                assert(head == entry_fields[0]);
                assert(decreases_to!(entry_fields => head.1));
            }
            let stripped = remove_keys(head.1);
            let ghost rest_view: Seq<(String, JsonVal)> = rest@;
            let mut out: Vec<(String, JsonVal)> = Vec::new();
            out.push((head.0, stripped));
            let mut rest = rest;
            out.append(&mut rest);
            proof {
                assert(out@.drop_first() =~= rest_view);
                assert(out@[0] == (head.0, stripped));
                assert(json_view_members(out@) == seq![(head.0@, json_view(stripped))]
                    + json_view_members(rest_view));
            }
            out
        }
    }
}

/// The three conversation roles the Gemini protocol knows.
#[derive(Clone, Copy, Debug, PartialEq, Eq, Structural)]
pub enum Role {
    Model,
    Function,
    User,
}

/// A function call part: the tool's name and its arguments as the text of
/// a JSON object, absent when the model supplied none.
#[derive(Debug, PartialEq)]
pub struct FunctionCall {
    pub name: String,
    pub args: Option<String>,
}

/// Mathematical model of a [`FunctionCall`].
pub struct FunctionCallView {
    pub name: Seq<char>,
    pub args: Option<Seq<char>>,
}

impl DeepView for FunctionCall {
    type V = FunctionCallView;

    open spec fn deep_view(&self) -> FunctionCallView {
        FunctionCallView { name: self.name@, args: self.args.deep_view() }
    }
}

/// The payload of a function response part.
#[derive(Debug, PartialEq)]
pub struct FunctionContent {
    pub name: String,
    pub content: String,
}

/// Mathematical model of a [`FunctionContent`].
pub struct FunctionContentView {
    pub name: Seq<char>,
    pub content: Seq<char>,
}

impl DeepView for FunctionContent {
    type V = FunctionContentView;

    open spec fn deep_view(&self) -> FunctionContentView {
        FunctionContentView { name: self.name@, content: self.content@ }
    }
}

/// A function response part: the call id it answers, twice, as the
/// protocol writes it, around the tool's text output.
#[derive(Debug, PartialEq)]
pub struct FunctionResponse {
    pub name: String,
    pub response: FunctionContent,
}

/// Mathematical model of a [`FunctionResponse`].
pub struct FunctionResponseView {
    pub name: Seq<char>,
    pub response: FunctionContentView,
}

impl DeepView for FunctionResponse {
    type V = FunctionResponseView;

    open spec fn deep_view(&self) -> FunctionResponseView {
        FunctionResponseView { name: self.name@, response: self.response.deep_view() }
    }
}

/// One part of a content entry.
#[derive(Debug, PartialEq)]
pub enum Part {
    Text { text: String },
    FunctionCall { function_call: FunctionCall },
    FunctionOutput { function_response: FunctionResponse },
}

/// Mathematical model of a [`Part`].
pub enum PartView {
    Text { text: Seq<char> },
    FunctionCall { function_call: FunctionCallView },
    FunctionOutput { function_response: FunctionResponseView },
}

impl DeepView for Part {
    type V = PartView;

    open spec fn deep_view(&self) -> PartView {
        match self {
            Part::Text { text } => PartView::Text { text: text@ },
            Part::FunctionCall { function_call } => PartView::FunctionCall {
                function_call: function_call.deep_view(),
            },
            Part::FunctionOutput { function_response } => PartView::FunctionOutput {
                function_response: function_response.deep_view(),
            },
        }
    }
}

/// One content entry: a role and its ordered parts.
#[derive(Debug, PartialEq)]
pub struct Message {
    pub role: Role,
    pub parts: Vec<Part>,
}

/// Mathematical model of a gemini [`Message`].
pub struct MessageView {
    pub role: Role,
    pub parts: Seq<PartView>,
}

impl DeepView for Message {
    type V = MessageView;

    open spec fn deep_view(&self) -> MessageView {
        MessageView { role: self.role, parts: self.parts.deep_view() }
    }
}

/// One declared tool: name, description and parameter schema.
#[derive(Debug, PartialEq)]
pub struct FunctionDeclaration {
    pub name: String,
    pub description: String,
    pub parameters: JsonVal,
}

/// Mathematical model of a [`FunctionDeclaration`].
pub struct FunctionDeclarationView {
    pub name: Seq<char>,
    pub description: Seq<char>,
    pub parameters: JsonView,
}

impl DeepView for FunctionDeclaration {
    type V = FunctionDeclarationView;

    open spec fn deep_view(&self) -> FunctionDeclarationView {
        FunctionDeclarationView {
            name: self.name@,
            description: self.description@,
            parameters: json_view(self.parameters),
        }
    }
}

/// The request's tool list: one entry holding every declaration.
#[derive(Debug, PartialEq)]
pub struct Tool {
    pub function_declarations: Vec<FunctionDeclaration>,
}

/// Mathematical model of a gemini [`Tool`].
pub struct ToolView {
    pub function_declarations: Seq<FunctionDeclarationView>,
}

impl DeepView for Tool {
    type V = ToolView;

    open spec fn deep_view(&self) -> ToolView {
        ToolView { function_declarations: self.function_declarations.deep_view() }
    }
}

/// The full Gemini request body.
#[derive(Debug, PartialEq)]
pub struct RequestBody {
    pub contents: Vec<Message>,
    pub tools: Option<Vec<Tool>>,
}

/// Mathematical model of the gemini [`RequestBody`].
pub struct RequestBodyView {
    pub contents: Seq<MessageView>,
    pub tools: Option<Seq<ToolView>>,
}

impl DeepView for RequestBody {
    type V = RequestBodyView;

    open spec fn deep_view(&self) -> RequestBodyView {
        RequestBodyView { contents: self.contents.deep_view(), tools: self.tools.deep_view() }
    }
}

/// The only finish reason the protocol reports for a text turn.
#[derive(Clone, Copy, Debug, PartialEq, Eq, Structural)]
pub enum FinishReason {
    Stop,
}

/// The token counters of a Gemini response, under the protocol's names.
#[derive(Clone, Copy, Debug, PartialEq, Eq, Structural)]
pub struct UsageMetadata {
    pub prompt_token_count: usize,
    pub candidates_token_count: usize,
    pub total_token_count: usize,
}

/// One answer candidate of a response.
#[derive(Debug, PartialEq)]
pub struct Candidate {
    pub content: Message,
    pub finish_reason: FinishReason,
}

/// Mathematical model of a [`Candidate`].
pub struct CandidateView {
    pub content: MessageView,
    pub finish_reason: FinishReason,
}

impl DeepView for Candidate {
    type V = CandidateView;

    open spec fn deep_view(&self) -> CandidateView {
        CandidateView { content: self.content.deep_view(), finish_reason: self.finish_reason }
    }
}

/// The response body of the Gemini protocol.
#[derive(Debug, PartialEq)]
pub struct ResponseBody {
    pub candidates: Vec<Candidate>,
    pub usage_metadata: UsageMetadata,
}

/// Mathematical model of the gemini [`ResponseBody`].
pub struct ResponseBodyView {
    pub candidates: Seq<CandidateView>,
    pub usage_metadata: UsageMetadata,
}

impl DeepView for ResponseBody {
    type V = ResponseBodyView;

    open spec fn deep_view(&self) -> ResponseBodyView {
        ResponseBodyView {
            candidates: self.candidates.deep_view(),
            usage_metadata: self.usage_metadata,
        }
    }
}

// ---------------------------------------------------------------------
// Canonical conversation -> contents

/// The function response part one canonical tool output becomes.
pub open spec fn spec_output_part(call_id: Seq<char>, output: Seq<char>) -> PartView {
    PartView::FunctionOutput {
        function_response: FunctionResponseView {
            name: call_id,
            response: FunctionContentView { name: call_id, content: output },
        },
    }
}

/// The function call part one canonical tool call becomes.
pub open spec fn spec_call_part(c: GeneralToolCallView) -> PartView {
    PartView::FunctionCall {
        function_call: FunctionCallView { name: c.name, args: c.arguments },
    }
}

/// The parts of a whole call batch, call by call.
pub open spec fn spec_call_parts(calls: Seq<GeneralToolCallView>) -> Seq<PartView> {
    calls.map_values(|c: GeneralToolCallView| spec_call_part(c))
}

/// One step of building the contents. `merge_open` says whether the last
/// entry was made from tool outputs and is still collecting them: a tool
/// output then joins that entry's parts instead of opening an entry of its
/// own, which is the protocol's look-back merge. Text by the assistant or
/// the user and tool-call batches by the assistant each open a fresh
/// entry; any other author is unsupported.
pub open spec fn spec_gemini_step(
    entries: Seq<MessageView>,
    merge_open: bool,
    m: ManagerMessageView,
) -> Option<(Seq<MessageView>, bool)> {
    match m {
        ManagerMessageView::Text { role, content } => match role {
            ManagerRole::Assistant => Some(
                (
                    entries.push(
                        MessageView { role: Role::Model, parts: seq![PartView::Text { text: content }] },
                    ),
                    false,
                ),
            ),
            ManagerRole::User => Some(
                (
                    entries.push(
                        MessageView { role: Role::User, parts: seq![PartView::Text { text: content }] },
                    ),
                    false,
                ),
            ),
            _ => None,
        },
        ManagerMessageView::ToolCalls { role, calls } => if role is Assistant {
            Some(
                (entries.push(MessageView { role: Role::Model, parts: spec_call_parts(calls) }), false),
            )
        } else {
            None
        },
        ManagerMessageView::ToolOutput { output_type, call_id, output } => {
            let part = spec_output_part(call_id, output);
            if merge_open && entries.len() > 0 {
                let last = entries.last();
                Some(
                    (
                        entries.update(
                            entries.len() - 1,
                            MessageView { role: last.role, parts: last.parts.push(part) },
                        ),
                        true,
                    ),
                )
            } else {
                Some((entries.push(MessageView { role: Role::Function, parts: seq![part] }), true))
            }
        },
    }
}

/// Folds the canonical messages into content entries, front to back.
pub open spec fn spec_gemini_fold(
    msgs: Seq<ManagerMessageView>,
    entries: Seq<MessageView>,
    merge_open: bool,
) -> Option<(Seq<MessageView>, bool)>
    decreases msgs.len(),
{
    if msgs.len() == 0 {
        Some((entries, merge_open))
    } else {
        match spec_gemini_step(entries, merge_open, msgs[0]) {
            Some(acc) => spec_gemini_fold(msgs.drop_first(), acc.0, acc.1),
            None => None,
        }
    }
}

/// The content entries a canonical conversation maps to, or nothing when
/// a message's author is unsupported by the protocol.
pub open spec fn spec_gemini_contents(msgs: Seq<ManagerMessageView>) -> Option<Seq<MessageView>> {
    match spec_gemini_fold(msgs, Seq::empty(), false) {
        Some(acc) => Some(acc.0),
        None => None,
    }
}

/// The look-back merge: while the last entry is still collecting tool
/// outputs, one more tool output becomes one more part of that same
/// entry, and the entry list does not grow.
pub proof fn lemma_gemini_output_merges(
    entries: Seq<MessageView>,
    output_type: crate::models::ToolOutputType,
    call_id: Seq<char>,
    output: Seq<char>,
)
    requires
        entries.len() > 0,
    ensures
        spec_gemini_step(
            entries,
            true,
            ManagerMessageView::ToolOutput { output_type, call_id, output },
        ) == Some(
            (
                entries.update(
                    entries.len() - 1,
                    MessageView {
                        role: entries.last().role,
                        parts: entries.last().parts.push(spec_output_part(call_id, output)),
                    },
                ),
                true,
            ),
        ),
{
}

/// A tool output that follows a text entry starts a content entry of its
/// own, with the `Function` role and the one response part.
pub proof fn lemma_gemini_output_new_entry(
    entries: Seq<MessageView>,
    output_type: crate::models::ToolOutputType,
    call_id: Seq<char>,
    output: Seq<char>,
)
    ensures
        spec_gemini_step(
            entries,
            false,
            ManagerMessageView::ToolOutput { output_type, call_id, output },
        ) == Some(
            (
                entries.push(
                    MessageView {
                        role: Role::Function,
                        parts: seq![spec_output_part(call_id, output)],
                    },
                ),
                true,
            ),
        ),
{
}

fn gemini_call_parts(calls: &Vec<GeneralToolCall>) -> (r: Vec<Part>)
    ensures
        r.deep_view() == spec_call_parts(calls.deep_view()),
{
    let mut r: Vec<Part> = Vec::new();
    let mut i: usize = 0;
    while i < calls.len()
        invariant
            i <= calls.len(),
            r@.len() == i,
            r.deep_view() =~= spec_call_parts(calls.deep_view().subrange(0, i as int)),
        decreases calls.len() - i,
    {
        let call = &calls[i];
        let converted = Part::FunctionCall {
            function_call: FunctionCall {
                name: call.name.clone(),
                args: match &call.arguments {
                    Some(a) => Some(a.clone()),
                    None => None,
                },
            },
        };
        r.push(converted);
        proof {
            assert(calls.deep_view()[i as int] == calls@[i as int].deep_view());
            assert(converted.deep_view() == spec_call_part(calls.deep_view()[i as int]));
            assert(calls.deep_view().subrange(0, i + 1) =~= calls.deep_view().subrange(
                0,
                i as int,
            ).push(calls.deep_view()[i as int]));
            let sub = calls.deep_view().subrange(0, i + 1);
            assert forall|j: int| 0 <= j < r@.len() implies r.deep_view()[j]
                == spec_call_parts(sub)[j] by {
                assert(r.deep_view()[j] == r@[j].deep_view());
                assert(spec_call_parts(sub)[j] == spec_call_part(sub[j]));
                if j < i {
                    assert(r@[j].deep_view() == spec_call_parts(
                        calls.deep_view().subrange(0, i as int),
                    )[j]);
                } else {
                    assert(r@[j] == converted);
                }
            }
            assert(r.deep_view().len() == r@.len());
            assert(r.deep_view() =~= spec_call_parts(sub));
        }
        i += 1;
    }
    proof {
        assert(calls.deep_view().subrange(0, calls.deep_view().len() as int) =~= calls.deep_view());
    }
    r
}

/// Builds the content entries for one model call, translating each
/// canonical message in order and merging consecutive tool outputs into
/// one entry. A message author the protocol cannot express is refused.
pub fn gemini_contents(messages: &Vec<ManagerMessage>) -> (r: Result<Vec<Message>, Error>)
    ensures
        r is Ok <==> spec_gemini_contents(messages.deep_view()) is Some,
        r matches Ok(c) ==> Some(c.deep_view()) == spec_gemini_contents(messages.deep_view()),
        r matches Err(e) ==> e.status == 500,
{
    let ghost all: Seq<ManagerMessageView> = messages.deep_view();
    let mut contents: Vec<Message> = Vec::new();
    let mut merge_open = false;
    let mut i: usize = 0;
    proof {
        assert(all.subrange(0, all.len() as int) =~= all);
        assert(contents.deep_view() =~= Seq::<MessageView>::empty());
    }
    while i < messages.len()
        invariant
            i <= messages.len(),
            all == messages.deep_view(),
            spec_gemini_fold(all, Seq::empty(), false) == spec_gemini_fold(
                all.subrange(i as int, all.len() as int),
                contents.deep_view(),
                merge_open,
            ),
        decreases messages.len() - i,
    {
        let ghost suffix: Seq<ManagerMessageView> = all.subrange(i as int, all.len() as int);
        let ghost entries: Seq<MessageView> = contents.deep_view();
        let ghost pre_contents: Vec<Message> = contents;
        let ghost pre_merge: bool = merge_open;
        proof {
            assert(suffix[0] == all[i as int]);
            assert(all[i as int] == messages@[i as int].deep_view());
            assert(suffix.drop_first() =~= all.subrange(i + 1, all.len() as int));
        }
        match &messages[i] {
            ManagerMessage::TextMessage(t) => {
                let gemini_role = match t.role {
                    ManagerRole::Assistant => Role::Model,
                    ManagerRole::User => Role::User,
                    _ => {
                        proof {
                            assert(spec_gemini_step(entries, merge_open, suffix[0]) is None);
                        }
                        return Err(
                            Error::protocol(String::from_str("Role not possible for text message")),
                        );
                    },
                };
                let converted = Message {
                    role: gemini_role,
                    parts: vec![Part::Text { text: t.content.clone() }],
                };
                contents.push(converted);
                proof {
                    assert(converted.deep_view().parts =~= seq![
                        PartView::Text { text: t.content@ },
                    ]);
                    lemma_vec_push_deep_view(pre_contents, contents, converted);
                }
                merge_open = false;
            },
            ManagerMessage::ToolCalls { role, tool_calls } => {
                if !matches!(role, ManagerRole::Assistant) {
                    proof {
                        assert(spec_gemini_step(entries, merge_open, suffix[0]) is None);
                    }
                    return Err(
                        Error::protocol(String::from_str("Role not possible for tool call")),
                    );
                }
                let converted = Message { role: Role::Model, parts: gemini_call_parts(tool_calls) };
                contents.push(converted);
                proof {
                    lemma_vec_push_deep_view(pre_contents, contents, converted);
                }
                merge_open = false;
            },
            ManagerMessage::ToolOutput { output_type, call_id, output } => {
                let part = Part::FunctionOutput {
                    function_response: FunctionResponse {
                        name: call_id.clone(),
                        response: FunctionContent {
                            name: call_id.clone(),
                            content: output.clone(),
                        },
                    },
                };
                proof {
                    assert(part.deep_view() == spec_output_part(call_id@, output@));
                }
                if merge_open && contents.len() > 0 {
                    let last = match contents.pop() {
                        Some(last) => last,
                        None => {
                            return Err(Error::protocol(String::from_str("Empty conversation")));
                        },
                    };
                    let ghost last_view: MessageView = entries.last();
                    proof {
                        assert(entries.len() == pre_contents@.len());
                        assert(last == pre_contents@[pre_contents@.len() - 1]);
                        assert(entries[pre_contents@.len() - 1] == pre_contents@[
                            pre_contents@.len() - 1
                        ].deep_view());
                        assert(last.deep_view() == last_view);
                    }
                    let mut last = last;
                    let ghost last_pre: Vec<Part> = last.parts;
                    last.parts.push(part);
                    proof {
                        lemma_vec_push_deep_view(last_pre, last.parts, part);
                        assert(last.deep_view() == (MessageView {
                            role: last_view.role,
                            parts: last_view.parts.push(spec_output_part(call_id@, output@)),
                        }));
                    }
                    contents.push(last);
                    proof {
                        assert(contents@ =~= pre_contents@.update(
                            pre_contents@.len() - 1,
                            last,
                        ));
                        lemma_vec_update_deep_view(
                            pre_contents,
                            contents,
                            pre_contents@.len() - 1,
                            last,
                        );
                    }
                    merge_open = true;
                } else {
                    let converted = Message { role: Role::Function, parts: vec![part] };
                    contents.push(converted);
                    proof {
                        assert(converted.deep_view().parts =~= seq![
                            spec_output_part(call_id@, output@),
                        ]);
                        lemma_vec_push_deep_view(pre_contents, contents, converted);
                    }
                    merge_open = true;
                }
            },
        }
        proof {
            assert(spec_gemini_step(entries, pre_merge, suffix[0]) == Some(
                (contents.deep_view(), merge_open),
            ));
            assert(spec_gemini_fold(suffix, entries, pre_merge) == spec_gemini_fold(
                all.subrange(i + 1, all.len() as int),
                contents.deep_view(),
                merge_open,
            ));
        }
        i += 1;
    }
    proof {
        assert(all.subrange(all.len() as int, all.len() as int).len() == 0);
    }
    Ok(contents)
}

// ---------------------------------------------------------------------
// Tool declarations and the full request

/// The declaration one catalog entry becomes: an absent description turns
/// into the empty string, and the schema is stripped of the members the
/// provider rejects.
pub open spec fn spec_gemini_declaration(t: ToolSpecView) -> FunctionDeclarationView {
    FunctionDeclarationView {
        name: t.name,
        description: match t.description {
            Some(d) => d,
            None => Seq::empty(),
        },
        parameters: strip_keys(t.input_schema, banned_schema_keys()),
    }
}

/// The whole declaration list, entry by entry.
pub open spec fn spec_gemini_declarations(
    specs: Seq<ToolSpecView>,
) -> Seq<FunctionDeclarationView> {
    specs.map_values(|t: ToolSpecView| spec_gemini_declaration(t))
}

/// Declares the filtered catalog to the provider: one tool entry holding
/// every declaration, in catalog order, with stripped schemas.
pub fn gemini_tool(specs: &Vec<ToolSpec>) -> (r: Tool)
    ensures
        r.deep_view() == (ToolView {
            function_declarations: spec_gemini_declarations(specs.deep_view()),
        }),
{
    let mut declarations: Vec<FunctionDeclaration> = Vec::new();
    let mut i: usize = 0;
    while i < specs.len()
        invariant
            i <= specs.len(),
            declarations@.len() == i,
            declarations.deep_view() =~= spec_gemini_declarations(
                specs.deep_view().subrange(0, i as int),
            ),
        decreases specs.len() - i,
    {
        let entry = &specs[i];
        let description = match &entry.description {
            Some(d) => d.clone(),
            None => String::new(),
        };
        let converted = FunctionDeclaration {
            name: entry.name.clone(),
            description,
            parameters: remove_keys(entry.input_schema.clone_val()),
        };
        proof {
            assert(specs.deep_view()[i as int] == specs@[i as int].deep_view());
            assert(converted.deep_view() == spec_gemini_declaration(specs.deep_view()[i as int]));
            assert(specs.deep_view().subrange(0, i + 1) =~= specs.deep_view().subrange(
                0,
                i as int,
            ).push(specs.deep_view()[i as int]));
        }
        declarations.push(converted);
        proof {
            let sub = specs.deep_view().subrange(0, i + 1);
            assert forall|j: int| 0 <= j < declarations@.len() implies declarations.deep_view()[j]
                == spec_gemini_declarations(sub)[j] by {
                assert(declarations.deep_view()[j] == declarations@[j].deep_view());
                assert(spec_gemini_declarations(sub)[j] == spec_gemini_declaration(sub[j]));
                if j < i {
                    assert(declarations@[j].deep_view() == spec_gemini_declarations(
                        specs.deep_view().subrange(0, i as int),
                    )[j]);
                } else {
                    assert(declarations@[j] == converted);
                }
            }
            assert(declarations.deep_view().len() == declarations@.len());
            assert(declarations.deep_view() =~= spec_gemini_declarations(sub));
        }
        i += 1;
    }
    proof {
        assert(specs.deep_view().subrange(0, specs.deep_view().len() as int)
            =~= specs.deep_view());
    }
    Tool { function_declarations: declarations }
}

/// Builds the full Gemini request for one model call: the translated
/// contents and one tool entry declaring the catalog. The generation
/// parameters have no place in this protocol's body and are not sent.
pub fn gemini_request(body: &ManagerBody, tools: &Vec<ToolSpec>) -> (r: Result<RequestBody, Error>)
    ensures
        r is Ok <==> spec_gemini_contents(body.deep_view().messages) is Some,
        r matches Ok(req) ==> ({
            &&& Some(req.deep_view().contents) == spec_gemini_contents(body.deep_view().messages)
            &&& req.deep_view().tools matches Some(ts) && ts =~= seq![
                ToolView {
                    function_declarations: spec_gemini_declarations(tools.deep_view()),
                },
            ]
        }),
        r matches Err(e) ==> e.status == 500,
{
    let contents = match gemini_contents(&body.messages) {
        Ok(c) => c,
        Err(e) => {
            return Err(e);
        },
    };
    let tool_list = vec![gemini_tool(tools)];
    let r = RequestBody { contents, tools: Some(tool_list) };
    proof {
        assert(r.tools->Some_0.deep_view() =~= seq![
            ToolView { function_declarations: spec_gemini_declarations(tools.deep_view()) },
        ]);
    }
    Ok(r)
}

// ---------------------------------------------------------------------
// Wire response -> canonical decisions

/// Whether a character is one an identifier may carry: an ASCII letter
/// or digit.
pub open spec fn spec_alphanumeric(c: char) -> bool {
    ('a' <= c && c <= 'z') || ('A' <= c && c <= 'Z') || ('0' <= c && c <= '9')
}

/// Relies on rand's `Alphanumeric` distribution: sampling a string of a
/// requested length appends exactly that many characters, each drawn from
/// the ASCII letters and digits. The identifier is random, so nothing
/// relates two calls, and distinctness cannot be promised.
#[verifier::external_body]
fn fresh_call_id() -> (r: String)
    ensures
        r@.len() == 24,
        forall|i: int| 0 <= i < r@.len() ==> spec_alphanumeric(#[trigger] r@[i]),
{
    Alphanumeric.sample_string(&mut rand::rng(), 24)
}

/// Whether every part of a candidate is one the gateway can read back: a
/// function response inside a model answer is an unsupported shape.
pub open spec fn spec_parts_ok(parts: Seq<PartView>) -> bool {
    forall|i: int| 0 <= i < parts.len() ==> !((#[trigger] parts[i]) is FunctionOutput)
}

/// Whether every generated id has the shape the adapter draws: exactly 24
/// characters, each an ASCII letter or digit.
pub open spec fn spec_ids_wf(ids: Seq<Seq<char>>) -> bool {
    forall|i: int|
        0 <= i < ids.len() ==> (#[trigger] ids[i]).len() == 24 && (forall|j: int|
            0 <= j < ids[i].len() ==> spec_alphanumeric(#[trigger] ids[i][j]))
}

/// One step of reading a candidate's parts. `group_open` says whether the
/// previous part was a function call: the calls of an unbroken run are
/// collected into one decision. Text closes the run and becomes its own
/// decision; a function call takes the next generated id.
pub open spec fn spec_gemini_decision_step(
    decisions: Seq<DecisionView>,
    group_open: bool,
    p: PartView,
    id: Seq<char>,
) -> Seq<DecisionView> {
    match p {
        PartView::Text { text } => decisions.push(DecisionView::Text(text)),
        PartView::FunctionCall { function_call } => {
            let call = GeneralToolCallView {
                name: function_call.name,
                id: id,
                arguments: function_call.args,
            };
            if group_open && decisions.len() > 0 && decisions.last() is ToolCalls {
                decisions.update(
                    decisions.len() - 1,
                    DecisionView::ToolCalls(decisions.last()->ToolCalls_0.push(call)),
                )
            } else {
                decisions.push(DecisionView::ToolCalls(seq![call]))
            }
        },
        PartView::FunctionOutput { .. } => decisions,
    }
}

/// Whether a step leaves an unbroken run of function calls open.
pub open spec fn spec_gemini_group_after(p: PartView) -> bool {
    p is FunctionCall
}

/// Folds a candidate's parts into decisions, consuming one generated id
/// per function call, front to back. Defined only over parts every one of
/// which the gateway accepts.
pub open spec fn spec_gemini_decisions_fold(
    parts: Seq<PartView>,
    ids: Seq<Seq<char>>,
    decisions: Seq<DecisionView>,
    group_open: bool,
) -> (Seq<DecisionView>, bool)
    decreases parts.len(),
{
    if parts.len() == 0 {
        (decisions, group_open)
    } else {
        let id = if ids.len() > 0 {
            ids[0]
        } else {
            Seq::empty()
        };
        let rest_ids = if parts[0] is FunctionCall {
            ids.drop_first()
        } else {
            ids
        };
        spec_gemini_decisions_fold(
            parts.drop_first(),
            rest_ids,
            spec_gemini_decision_step(decisions, group_open, parts[0], id),
            spec_gemini_group_after(parts[0]),
        )
    }
}

/// The decisions a candidate's parts mean, given the ids drawn for its
/// function calls in order.
pub open spec fn spec_gemini_decisions(
    parts: Seq<PartView>,
    ids: Seq<Seq<char>>,
) -> Seq<DecisionView> {
    spec_gemini_decisions_fold(parts, ids, Seq::empty(), false).0
}

/// The canonical counters a Gemini usage report means: candidate tokens
/// are completion tokens, prompt and total carry over.
pub open spec fn spec_gemini_usage(u: UsageMetadata) -> UsageTokens {
    UsageTokens {
        completion_tokens: u.candidates_token_count,
        prompt_tokens: u.prompt_token_count,
        total_tokens: u.total_token_count,
    }
}

/// Reads a Gemini response into canonical decisions and usage. Only the
/// first candidate counts. Text parts become text decisions; an unbroken
/// run of function calls becomes one tool-call decision whose calls carry
/// freshly drawn 24-character ids, in part order. An empty candidate list
/// or a function response among the parts is a protocol error.
pub fn gemini_decisions(response: ResponseBody) -> (r: Result<
    (Vec<ModelDecision>, UsageTokens),
    Error,
>)
    ensures
        r is Ok <==> (response.deep_view().candidates.len() > 0 && spec_parts_ok(
            response.deep_view().candidates[0].content.parts,
        )),
        r matches Ok(p) ==> ({
            &&& exists|ids: Seq<Seq<char>>|
                #![trigger spec_gemini_decisions(
                    response.deep_view().candidates[0].content.parts,
                    ids,
                )]
                spec_ids_wf(ids) && p.0.deep_view() == spec_gemini_decisions(
                    response.deep_view().candidates[0].content.parts,
                    ids,
                )
            &&& p.1 == spec_gemini_usage(response.deep_view().usage_metadata)
        }),
        r matches Err(e) ==> e.status == 500,
{
    let ResponseBody { mut candidates, usage_metadata } = response;
    if candidates.len() == 0 {
        return Err(Error::protocol(String::from_str("Empty response from model")));
    }
    let candidate = candidates.remove(0);
    proof {
        assert(candidate.deep_view() == response.deep_view().candidates[0]);
    }
    let parts = candidate.content.parts;
    let ghost all_parts: Seq<PartView> = parts.deep_view();
    let mut decisions: Vec<ModelDecision> = Vec::new();
    let mut group_open = false;
    let mut i: usize = 0;
    let ghost mut drawn_all: Seq<Seq<char>> = Seq::empty();
    proof {
        assert(all_parts == response.deep_view().candidates[0].content.parts);
        assert(decisions.deep_view() =~= Seq::<DecisionView>::empty());
        assert forall|ids_rest: Seq<Seq<char>>|
            spec_gemini_decisions_fold(all_parts, drawn_all + ids_rest, Seq::empty(), false)
                == #[trigger] spec_gemini_decisions_fold(
                all_parts.subrange(0, all_parts.len() as int),
                ids_rest,
                decisions.deep_view(),
                group_open,
            ) by {
            assert(all_parts.subrange(0, all_parts.len() as int) =~= all_parts);
            assert(drawn_all + ids_rest =~= ids_rest);
        }
    }
    while i < parts.len()
        invariant
            i <= parts.len(),
            all_parts == parts.deep_view(),
            response.deep_view().candidates.len() > 0,
            all_parts == response.deep_view().candidates[0].content.parts,
            spec_ids_wf(drawn_all),
            forall|j: int| 0 <= j < i ==> !((#[trigger] all_parts[j]) is FunctionOutput),
            forall|ids_rest: Seq<Seq<char>>|
                #![trigger spec_gemini_decisions_fold(
                    all_parts.subrange(i as int, all_parts.len() as int),
                    ids_rest,
                    decisions.deep_view(),
                    group_open,
                )]
                spec_gemini_decisions_fold(all_parts, drawn_all + ids_rest, Seq::empty(), false)
                    == spec_gemini_decisions_fold(
                    all_parts.subrange(i as int, all_parts.len() as int),
                    ids_rest,
                    decisions.deep_view(),
                    group_open,
                ),
        decreases parts.len() - i,
    {
        let ghost suffix: Seq<PartView> = all_parts.subrange(i as int, all_parts.len() as int);
        let ghost pre_decisions: Vec<ModelDecision> = decisions;
        let ghost pre_group: bool = group_open;
        let ghost pre_drawn: Seq<Seq<char>> = drawn_all;
        proof {
            assert(suffix[0] == all_parts[i as int]);
            assert(all_parts[i as int] == parts@[i as int].deep_view());
            assert(suffix.drop_first() =~= all_parts.subrange(i + 1, all_parts.len() as int));
        }
        let ghost step_id: Seq<char> = Seq::empty();
        match &parts[i] {
            Part::Text { text } => {
                let converted = ModelDecision::TextMessage(text.clone());
                let ghost converted_snap: ModelDecision = converted;
                decisions.push(converted);
                proof {
                    lemma_vec_push_deep_view(pre_decisions, decisions, converted_snap);
                }
                group_open = false;
            },
            Part::FunctionCall { function_call } => {
                let id = fresh_call_id();
                proof {
                    step_id = id@;
                    drawn_all = drawn_all.push(id@);
                    assert(spec_ids_wf(drawn_all));
                }
                let call = GeneralToolCall {
                    name: function_call.name.clone(),
                    id,
                    arguments: match &function_call.args {
                        Some(a) => Some(a.clone()),
                        None => None,
                    },
                };
                let ghost call_snap: GeneralToolCall = call;
                proof {
                    assert(call_snap.deep_view() == (GeneralToolCallView {
                        name: suffix[0]->FunctionCall_function_call.name,
                        id: step_id,
                        arguments: suffix[0]->FunctionCall_function_call.args,
                    }));
                }
                let extend = group_open && decisions.len() > 0;
                if extend {
                    let last = match decisions.pop() {
                        Some(last) => last,
                        None => {
                            return Err(Error::protocol(String::from_str("Empty decision list")));
                        },
                    };
                    let ghost last_snap: ModelDecision = last;
                    proof {
                        assert(pre_decisions.deep_view().len() == pre_decisions@.len());
                        assert(last_snap == pre_decisions@[pre_decisions@.len() - 1]);
                        assert(pre_decisions.deep_view()[pre_decisions@.len() - 1]
                            == pre_decisions@[pre_decisions@.len() - 1].deep_view());
                    }
                    match last {
                        ModelDecision::ToolCalls(mut calls) => {
                            let ghost calls_pre: Vec<GeneralToolCall> = calls;
                            calls.push(call);
                            proof {
                                lemma_vec_push_deep_view(calls_pre, calls, call_snap);
                                assert(pre_decisions.deep_view().last()
                                    == DecisionView::ToolCalls(calls_pre.deep_view()));
                            }
                            let rebuilt = ModelDecision::ToolCalls(calls);
                            let ghost rebuilt_snap: ModelDecision = rebuilt;
                            decisions.push(rebuilt);
                            proof {
                                assert(decisions@ =~= pre_decisions@.update(
                                    pre_decisions@.len() - 1,
                                    rebuilt_snap,
                                ));
                                lemma_vec_update_deep_view(
                                    pre_decisions,
                                    decisions,
                                    pre_decisions@.len() - 1,
                                    rebuilt_snap,
                                );
                            }
                        },
                        other => {
                            let ghost other_snap: ModelDecision = other;
                            decisions.push(other);
                            proof {
                                assert(decisions@ =~= pre_decisions@);
                                assert(decisions.deep_view() =~= pre_decisions.deep_view());
                            }
                            let ghost mid_decisions: Vec<ModelDecision> = decisions;
                            let converted = ModelDecision::ToolCalls(vec![call]);
                            let ghost converted_snap: ModelDecision = converted;
                            proof {
                                assert(converted_snap.deep_view() == DecisionView::ToolCalls(
                                    seq![call_snap.deep_view()],
                                )) by {
                                    assert(converted_snap->ToolCalls_0.deep_view()
                                        =~= seq![call_snap.deep_view()]);
                                }
                            }
                            decisions.push(converted);
                            proof {
                                lemma_vec_push_deep_view(mid_decisions, decisions, converted_snap);
                            }
                        },
                    }
                } else {
                    let converted = ModelDecision::ToolCalls(vec![call]);
                    let ghost converted_snap: ModelDecision = converted;
                    proof {
                        assert(converted_snap.deep_view() == DecisionView::ToolCalls(
                            seq![call_snap.deep_view()],
                        )) by {
                            assert(converted_snap->ToolCalls_0.deep_view()
                                =~= seq![call_snap.deep_view()]);
                        }
                    }
                    decisions.push(converted);
                    proof {
                        lemma_vec_push_deep_view(pre_decisions, decisions, converted_snap);
                    }
                }
                group_open = true;
            },
            Part::FunctionOutput { .. } => {
                proof {
                    assert(all_parts[i as int] is FunctionOutput);
                    assert(!spec_parts_ok(all_parts));
                }
                return Err(Error::protocol(String::from_str("Part not supported")));
            },
        }
        proof {
            assert(spec_gemini_decision_step(
                pre_decisions.deep_view(),
                pre_group,
                suffix[0],
                step_id,
            ) == decisions.deep_view());
            assert(group_open == spec_gemini_group_after(suffix[0]));
            assert forall|ids_rest: Seq<Seq<char>>|
                #![trigger spec_gemini_decisions_fold(
                    all_parts.subrange(i + 1, all_parts.len() as int),
                    ids_rest,
                    decisions.deep_view(),
                    group_open,
                )]
                spec_gemini_decisions_fold(all_parts, drawn_all + ids_rest, Seq::empty(), false)
                    == spec_gemini_decisions_fold(
                    all_parts.subrange(i + 1, all_parts.len() as int),
                    ids_rest,
                    decisions.deep_view(),
                    group_open,
                ) by {
                if suffix[0] is FunctionCall {
                    let pre_rest = seq![step_id] + ids_rest;
                    assert(spec_gemini_decisions_fold(all_parts, pre_drawn + pre_rest, Seq::empty(), false)
                        == spec_gemini_decisions_fold(
                        suffix,
                        pre_rest,
                        pre_decisions.deep_view(),
                        pre_group,
                    ));
                    assert(pre_drawn + pre_rest =~= drawn_all + ids_rest);
                    assert(pre_rest[0] == step_id);
                    assert(pre_rest.drop_first() =~= ids_rest);
                    assert(spec_gemini_decisions_fold(
                        suffix,
                        pre_rest,
                        pre_decisions.deep_view(),
                        pre_group,
                    ) == spec_gemini_decisions_fold(
                        suffix.drop_first(),
                        ids_rest,
                        decisions.deep_view(),
                        group_open,
                    ));
                    assert(suffix.drop_first() =~= all_parts.subrange(i + 1, all_parts.len() as int));
                } else {
                    assert(spec_gemini_decisions_fold(all_parts, pre_drawn + ids_rest, Seq::empty(), false)
                        == spec_gemini_decisions_fold(
                        suffix,
                        ids_rest,
                        pre_decisions.deep_view(),
                        pre_group,
                    ));
                    assert(pre_drawn + ids_rest == drawn_all + ids_rest);
                    if ids_rest.len() > 0 {
                        assert(spec_gemini_decision_step(
                            pre_decisions.deep_view(),
                            pre_group,
                            suffix[0],
                            ids_rest[0],
                        ) == decisions.deep_view());
                    }
                    assert(spec_gemini_decisions_fold(
                        suffix,
                        ids_rest,
                        pre_decisions.deep_view(),
                        pre_group,
                    ) == spec_gemini_decisions_fold(
                        suffix.drop_first(),
                        ids_rest,
                        decisions.deep_view(),
                        group_open,
                    ));
                    assert(suffix.drop_first() =~= all_parts.subrange(i + 1, all_parts.len() as int));
                }
            }
        }
        i += 1;
    }
    proof {
        let empty_rest = Seq::<Seq<char>>::empty();
        assert(spec_gemini_decisions_fold(
            all_parts.subrange(all_parts.len() as int, all_parts.len() as int),
            empty_rest,
            decisions.deep_view(),
            group_open,
        ) == (decisions.deep_view(), group_open));
        assert(drawn_all + empty_rest =~= drawn_all);
        assert(spec_gemini_decisions(all_parts, drawn_all) == decisions.deep_view());
        assert(spec_ids_wf(drawn_all));
    }
    let usage = UsageTokens {
        completion_tokens: usage_metadata.candidates_token_count,
        prompt_tokens: usage_metadata.prompt_token_count,
        total_tokens: usage_metadata.total_token_count,
    };
    Ok((decisions, usage))
}

} // verus!
