pub mod anthropic;
pub mod azure;
pub mod client;
pub mod gemini;
pub mod openai;

use vstd::prelude::*;

use crate::mcp::{ToolCall, ToolCallView, clone_calls};

verus! {

/// Who authored a message of the canonical conversation.
#[derive(Clone, Copy, Debug, PartialEq, Eq, Structural)]
pub enum Role {
    Assistant,
    System,
    Tool,
    User,
}

/// A plain text message together with its author.
#[derive(Debug, PartialEq)]
pub struct TextMessage {
    pub role: Role,
    pub content: String,
}

/// Mathematical model of a [`TextMessage`].
pub struct TextMessageView {
    pub role: Role,
    pub content: Seq<char>,
}

impl DeepView for TextMessage {
    type V = TextMessageView;

    open spec fn deep_view(&self) -> TextMessageView {
        TextMessageView { role: self.role, content: self.content@ }
    }
}

impl Clone for TextMessage {
    fn clone(&self) -> (r: Self)
        ensures
            r == *self,
    {
        TextMessage { role: self.role, content: self.content.clone() }
    }
}

/// The discriminator a tool-output message carries on the wire.
#[derive(Clone, Copy, Debug, PartialEq, Eq, Structural)]
pub enum ToolOutputType {
    FunctionCallOutput,
}

/// One entry of the canonical conversation. The three shapes are told apart
/// on the wire purely by which fields are present, in this order of checks:
/// a plain text message, a batch of tool calls issued by the model, and the
/// output of one earlier tool call.
#[derive(Debug, PartialEq)]
pub enum Message {
    TextMessage(TextMessage),
    ToolCalls { role: Role, tool_calls: Vec<ToolCall> },
    ToolOutput { output_type: ToolOutputType, call_id: String, output: String },
}

/// Mathematical model of a [`Message`].
pub enum MessageView {
    Text { role: Role, content: Seq<char> },
    ToolCalls { role: Role, calls: Seq<ToolCallView> },
    ToolOutput { output_type: ToolOutputType, call_id: Seq<char>, output: Seq<char> },
}

impl DeepView for Message {
    type V = MessageView;

    open spec fn deep_view(&self) -> MessageView {
        match self {
            Message::TextMessage(t) => MessageView::Text { role: t.role, content: t.content@ },
            Message::ToolCalls { role, tool_calls } => MessageView::ToolCalls {
                role: *role,
                calls: tool_calls.deep_view(),
            },
            Message::ToolOutput { output_type, call_id, output } => MessageView::ToolOutput {
                output_type: *output_type,
                call_id: call_id@,
                output: output@,
            },
        }
    }
}

impl Clone for Message {
    fn clone(&self) -> (r: Self)
        ensures
            r.deep_view() == self.deep_view(),
    {
        match self {
            Message::TextMessage(t) => Message::TextMessage(t.clone()),
            Message::ToolCalls { role, tool_calls } => Message::ToolCalls {
                role: *role,
                tool_calls: clone_calls(tool_calls),
            },
            Message::ToolOutput { output_type, call_id, output } => Message::ToolOutput {
                output_type: *output_type,
                call_id: call_id.clone(),
                output: output.clone(),
            },
        }
    }
}

/// One element of what a provider decided in a single turn: either prose for
/// the caller, or a batch of tool calls to dispatch.
#[derive(Debug, PartialEq)]
pub enum ModelDecision {
    TextMessage(String),
    ToolCalls(Vec<ToolCall>),
}

/// Mathematical model of a [`ModelDecision`].
pub enum DecisionView {
    Text(Seq<char>),
    ToolCalls(Seq<ToolCallView>),
}

impl DeepView for ModelDecision {
    type V = DecisionView;

    open spec fn deep_view(&self) -> DecisionView {
        match self {
            ModelDecision::TextMessage(t) => DecisionView::Text(t@),
            ModelDecision::ToolCalls(calls) => DecisionView::ToolCalls(calls.deep_view()),
        }
    }
}

/// The token counters a provider reports for one exchange.
#[derive(Clone, Copy, Debug, PartialEq, Eq, Structural)]
pub struct UsageTokens {
    pub completion_tokens: usize,
    pub prompt_tokens: usize,
    pub total_tokens: usize,
}

impl UsageTokens {
    /// The all-zero counters that an accumulation starts from.
    pub fn zero() -> (r: UsageTokens)
        ensures
            r == (UsageTokens { completion_tokens: 0, prompt_tokens: 0, total_tokens: 0 }),
    {
        UsageTokens { completion_tokens: 0, prompt_tokens: 0, total_tokens: 0 }
    }

    /// Counter-wise addition, for accumulating usage across the turns of one
    /// request. The counters must not overflow the machine word.
    pub fn add(&mut self, other: &UsageTokens)
        requires
            old(self).completion_tokens + other.completion_tokens <= usize::MAX,
            old(self).prompt_tokens + other.prompt_tokens <= usize::MAX,
            old(self).total_tokens + other.total_tokens <= usize::MAX,
        ensures
            final(self).completion_tokens == old(self).completion_tokens
                + other.completion_tokens,
            final(self).prompt_tokens == old(self).prompt_tokens + other.prompt_tokens,
            final(self).total_tokens == old(self).total_tokens + other.total_tokens,
    {
        self.completion_tokens += other.completion_tokens;
        self.prompt_tokens += other.prompt_tokens;
        self.total_tokens += other.total_tokens;
    }

    /// Counter-wise addition clamped at the machine word, total on all
    /// inputs; equal to [`UsageTokens::add`] wherever that is defined.
    pub fn add_saturating(&mut self, other: &UsageTokens)
        ensures
            *final(self) == spec_add_saturating(*old(self), *other),
    {
        self.completion_tokens = saturating_add_usize(self.completion_tokens, other.completion_tokens);
        self.prompt_tokens = saturating_add_usize(self.prompt_tokens, other.prompt_tokens);
        self.total_tokens = saturating_add_usize(self.total_tokens, other.total_tokens);
    }
}

/// Counter-wise addition of usage counters, clamped at the machine word.
pub open spec fn spec_add_saturating(a: UsageTokens, b: UsageTokens) -> UsageTokens {
    UsageTokens {
        completion_tokens: spec_sat_add(a.completion_tokens, b.completion_tokens),
        prompt_tokens: spec_sat_add(a.prompt_tokens, b.prompt_tokens),
        total_tokens: spec_sat_add(a.total_tokens, b.total_tokens),
    }
}

/// The sum of two machine words, clamped at the largest machine word.
pub open spec fn spec_sat_add(a: usize, b: usize) -> usize {
    if a + b <= usize::MAX {
        (a + b) as usize
    } else {
        usize::MAX
    }
}

fn saturating_add_usize(a: usize, b: usize) -> (r: usize)
    ensures
        r == spec_sat_add(a, b),
{
    if a <= usize::MAX - b {
        a + b
    } else {
        usize::MAX
    }
}

/// Pushing one element extends a vector's model by that element's model.
pub proof fn lemma_vec_push_deep_view<T: DeepView>(v1: Vec<T>, v2: Vec<T>, x: T)
    requires
        v2@ == v1@.push(x),
    ensures
        v2.deep_view() == v1.deep_view().push(x.deep_view()),
{
    assert(v1.deep_view().len() == v1@.len());
    assert(v2.deep_view().len() == v2@.len());
    assert forall|j: int| 0 <= j < v2@.len() implies v2.deep_view()[j] == v1.deep_view().push(
        x.deep_view(),
    )[j] by {
        assert(v2.deep_view()[j] == v2@[j].deep_view());
        if j < v1@.len() {
            assert(v2@[j] == v1@[j]);
            assert(v1.deep_view()[j] == v1@[j].deep_view());
        } else {
            assert(v2@[j] == x);
        }
    }
    assert(v2.deep_view() =~= v1.deep_view().push(x.deep_view()));
}

/// Replacing one element replaces exactly that element's model.
pub proof fn lemma_vec_update_deep_view<T: DeepView>(v1: Vec<T>, v2: Vec<T>, k: int, x: T)
    requires
        0 <= k < v1@.len(),
        v2@ == v1@.update(k, x),
    ensures
        v2.deep_view() == v1.deep_view().update(k, x.deep_view()),
{
    assert(v1.deep_view().len() == v1@.len());
    assert(v2.deep_view().len() == v2@.len());
    assert forall|j: int| 0 <= j < v2@.len() implies v2.deep_view()[j] == v1.deep_view().update(
        k,
        x.deep_view(),
    )[j] by {
        assert(v2.deep_view()[j] == v2@[j].deep_view());
        if j != k {
            assert(v2@[j] == v1@[j]);
            assert(v1.deep_view()[j] == v1@[j].deep_view());
        } else {
            assert(v2@[j] == x);
        }
    }
    assert(v2.deep_view() =~= v1.deep_view().update(k, x.deep_view()));
}

/// A whole conversation as one request or response body: the ordered
/// messages and the optional generation parameters. The numeric parameters
/// are carried as the decimal text the caller wrote, untouched by the
/// library, so that they reach the provider exactly as given.
#[derive(Debug, PartialEq)]
pub struct ManagerBody {
    pub messages: Vec<Message>,
    pub temperature: Option<String>,
    pub max_tokens: Option<i64>,
    pub top_p: Option<String>,
}

/// Mathematical model of a [`ManagerBody`].
pub struct BodyView {
    pub messages: Seq<MessageView>,
    pub temperature: Option<Seq<char>>,
    pub max_tokens: Option<i64>,
    pub top_p: Option<Seq<char>>,
}

impl DeepView for ManagerBody {
    type V = BodyView;

    open spec fn deep_view(&self) -> BodyView {
        BodyView {
            messages: self.messages.deep_view(),
            temperature: self.temperature.deep_view(),
            max_tokens: self.max_tokens,
            top_p: self.top_p.deep_view(),
        }
    }
}

impl ManagerBody {
    /// Appends one message at the end of the conversation; nothing else of
    /// the body changes.
    pub fn append_message(&mut self, message: Message)
        ensures
            final(self).deep_view().messages == old(self).deep_view().messages.push(
                message.deep_view(),
            ),
            final(self).deep_view().temperature == old(self).deep_view().temperature,
            final(self).deep_view().max_tokens == old(self).deep_view().max_tokens,
            final(self).deep_view().top_p == old(self).deep_view().top_p,
    {
        self.messages.push(message);
        proof {
            assert(self.deep_view().messages =~= old(self).deep_view().messages.push(
                message.deep_view(),
            ));
        }
    }
}

} // verus!
