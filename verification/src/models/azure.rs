use vstd::prelude::*;

use crate::auth::{Auth, AuthView, AuthLocationView};
use crate::models::{ManagerBody, MessageView as ManagerMessageView};
use crate::models::openai::{
    Message, MessageView, Tool, ToolView, ToolChoice, openai_messages, spec_openai_messages,
};

verus! {

/// The Azure request body: the OpenAI-compatible shape without a model
/// field, since Azure addresses the deployment through the URL. The
/// `api-version` query parameter is part of the client plan.
#[derive(Debug, PartialEq)]
pub struct RequestBody {
    pub messages: Vec<Message>,
    pub temperature: Option<String>,
    pub max_tokens: Option<i64>,
    pub top_p: Option<String>,
    pub tools: Option<Vec<Tool>>,
    pub tool_choice: ToolChoice,
}

/// Mathematical model of the Azure [`RequestBody`].
pub struct RequestBodyView {
    pub messages: Seq<MessageView>,
    pub temperature: Option<Seq<char>>,
    pub max_tokens: Option<i64>,
    pub top_p: Option<Seq<char>>,
    pub tools: Option<Seq<ToolView>>,
    pub tool_choice: ToolChoice,
}

impl DeepView for RequestBody {
    type V = RequestBodyView;

    open spec fn deep_view(&self) -> RequestBodyView {
        RequestBodyView {
            messages: self.messages.deep_view(),
            temperature: self.temperature.deep_view(),
            max_tokens: self.max_tokens,
            top_p: self.top_p.deep_view(),
            tools: self.tools.deep_view(),
            tool_choice: self.tool_choice,
        }
    }
}

/// Builds the Azure request for one model call: the same translation as
/// the OpenAI adapter, with the caller's generation parameters unchanged
/// and automatic tool choice.
pub fn azure_request(body: &ManagerBody, tools: Vec<Tool>) -> (r: RequestBody)
    ensures
        r.deep_view() == (RequestBodyView {
            messages: spec_openai_messages(body.deep_view().messages),
            temperature: body.deep_view().temperature,
            max_tokens: body.deep_view().max_tokens,
            top_p: body.deep_view().top_p,
            tools: Some(tools.deep_view()),
            tool_choice: ToolChoice::Auto,
        }),
{
    RequestBody {
        messages: openai_messages(&body.messages),
        temperature: match &body.temperature {
            Some(t) => Some(t.clone()),
            None => None,
        },
        max_tokens: body.max_tokens,
        top_p: match &body.top_p {
            Some(t) => Some(t.clone()),
            None => None,
        },
        tools: Some(tools),
        tool_choice: ToolChoice::Auto,
    }
}

/// Whether the Azure adapter supports an auth mode: only a header API key
/// is accepted; every other mode is a configuration error fatal at
/// startup, before any request is handled.
pub fn azure_auth_supported(auth: &Auth) -> (r: bool)
    ensures
        r == (auth.deep_view() matches AuthView::ApiKey(AuthLocationView::Header(_, _))),
{
    match auth {
        Auth::ApiKey(crate::auth::AuthLocation::Header(_, _)) => true,
        _ => false,
    }
}

} // verus!
