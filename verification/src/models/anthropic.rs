use vstd::prelude::*;

use crate::models::ManagerBody;
use crate::models::openai::{
    RequestBody, RequestBodyView, Tool, ToolChoice, openai_request, spec_openai_messages,
};

verus! {

/// Builds the Anthropic request for one model call. Anthropic speaks the
/// OpenAI-compatible shape with an explicit model id; what sets it apart
/// is the extra version header of [`anthropic_headers`].
pub fn anthropic_request(body: &ManagerBody, tools: Vec<Tool>, model: String) -> (r: RequestBody)
    ensures
        r.deep_view() == (RequestBodyView {
            messages: spec_openai_messages(body.deep_view().messages),
            temperature: body.deep_view().temperature,
            max_tokens: body.deep_view().max_tokens,
            top_p: body.deep_view().top_p,
            tools: Some(tools.deep_view()),
            tool_choice: ToolChoice::Auto,
            model: model@,
        }),
{
    openai_request(body, tools, model)
}

/// The one extra header every Anthropic call carries: the configured
/// protocol version under the `anthropic_version` name.
pub fn anthropic_headers(version: String) -> (r: Vec<(String, String)>)
    ensures
        r.deep_view() =~= seq![("anthropic_version"@, version@)],
{
    let mut headers: Vec<(String, String)> = Vec::new();
    headers.push((String::from_str("anthropic_version"), version));
    headers
}

} // verus!
