use vstd::prelude::*;

use crate::error::Error;
use crate::json::{JsonVal, JsonView, json_view};

verus! {

/// One tool invocation requested by a model: the tool's name, the id that
/// correlates the eventual output with this call, and the arguments as the
/// text of a JSON object (`None` when the model supplied none).
#[derive(Debug, PartialEq)]
pub struct ToolCall {
    pub name: String,
    pub id: String,
    pub arguments: Option<String>,
}

/// Mathematical model of a [`ToolCall`].
pub struct ToolCallView {
    pub name: Seq<char>,
    pub id: Seq<char>,
    pub arguments: Option<Seq<char>>,
}

impl DeepView for ToolCall {
    type V = ToolCallView;

    open spec fn deep_view(&self) -> ToolCallView {
        ToolCallView { name: self.name@, id: self.id@, arguments: self.arguments.deep_view() }
    }
}

impl Clone for ToolCall {
    fn clone(&self) -> (r: Self)
        ensures
            r == *self,
    {
        ToolCall {
            name: self.name.clone(),
            id: self.id.clone(),
            arguments: match &self.arguments {
                Some(a) => Some(a.clone()),
                None => None,
            },
        }
    }
}

/// Duplicates a list of tool calls, keeping every element equal.
pub fn clone_calls(calls: &Vec<ToolCall>) -> (r: Vec<ToolCall>)
    ensures
        r@ == calls@,
{
    let r = calls.clone();
    proof {
        assert forall|i: int| 0 <= i < r@.len() implies r@[i] == calls@[i] by {
            assert(cloned::<ToolCall>(calls[i], r[i]));
        }
        assert(r@ =~= calls@);
    }
    r
}

/// Which tools an MCP connection exposes to its workspaces: either only the
/// named ones, or all but the named ones. No configured filter behaves as
/// `Exclude` of the empty set, which allows everything.
#[derive(Debug, PartialEq)]
pub enum ToolFilter {
    Include(Vec<String>),
    Exclude(Vec<String>),
}

/// Mathematical model of a [`ToolFilter`]: the kept or dropped names as a set.
pub enum ToolFilterView {
    Include(Set<Seq<char>>),
    Exclude(Set<Seq<char>>),
}

impl DeepView for ToolFilter {
    type V = ToolFilterView;

    open spec fn deep_view(&self) -> ToolFilterView {
        match self {
            ToolFilter::Include(names) => ToolFilterView::Include(names.deep_view().to_set()),
            ToolFilter::Exclude(names) => ToolFilterView::Exclude(names.deep_view().to_set()),
        }
    }
}

/// A tool filter as it stands in the configuration file, before the default
/// is applied.
#[derive(Debug, PartialEq)]
pub enum ToolFilterConfig {
    Include { names: Vec<String> },
    Exclude { names: Vec<String> },
}

/// Turns the optional configured filter into the effective one: an absent
/// filter excludes nothing, so every tool passes.
pub fn get_filter(filter: Option<ToolFilterConfig>) -> (r: ToolFilter)
    ensures
        r.deep_view() == (match filter {
            Some(ToolFilterConfig::Include { names }) => ToolFilterView::Include(
                names.deep_view().to_set(),
            ),
            Some(ToolFilterConfig::Exclude { names }) => ToolFilterView::Exclude(
                names.deep_view().to_set(),
            ),
            None => ToolFilterView::Exclude(Set::<Seq<char>>::empty()),
        }),
{
    let r = match filter {
        Some(ToolFilterConfig::Include { names }) => ToolFilter::Include(names),
        Some(ToolFilterConfig::Exclude { names }) => ToolFilter::Exclude(names),
        None => ToolFilter::Exclude(Vec::new()),
    };
    proof {
        if r is Exclude && r->Exclude_0@.len() == 0 {
            assert(r->Exclude_0.deep_view().to_set() =~= Set::<Seq<char>>::empty());
        }
    }
    r
}

/// Whether a filter lets the named tool through.
pub open spec fn filter_allows(filter: ToolFilterView, name: Seq<char>) -> bool {
    match filter {
        ToolFilterView::Include(names) => names.contains(name),
        ToolFilterView::Exclude(names) => !names.contains(name),
    }
}

/// One tool as an MCP server advertises it: name, optional description and
/// the JSON schema of its arguments.
#[derive(Debug, PartialEq)]
pub struct ToolSpec {
    pub name: String,
    pub description: Option<String>,
    pub input_schema: JsonVal,
}

/// Mathematical model of a [`ToolSpec`].
pub struct ToolSpecView {
    pub name: Seq<char>,
    pub description: Option<Seq<char>>,
    pub input_schema: JsonView,
}

impl DeepView for ToolSpec {
    type V = ToolSpecView;

    open spec fn deep_view(&self) -> ToolSpecView {
        ToolSpecView {
            name: self.name@,
            description: self.description.deep_view(),
            input_schema: json_view(self.input_schema),
        }
    }
}

impl ToolSpec {
    /// Duplicates a tool description; the copy has the same model.
    pub fn clone_spec(&self) -> (r: ToolSpec)
        ensures
            r.deep_view() == self.deep_view(),
    {
        ToolSpec {
            name: self.name.clone(),
            description: match &self.description {
                Some(d) => Some(d.clone()),
                None => None,
            },
            input_schema: self.input_schema.clone_val(),
        }
    }
}

/// The tools a filter keeps out of an advertised list, in order.
pub open spec fn spec_filter_tools(
    tools: Seq<ToolSpecView>,
    filter: ToolFilterView,
) -> Seq<ToolSpecView>
    decreases tools.len(),
{
    if tools.len() == 0 {
        tools
    } else {
        let rest = spec_filter_tools(tools.drop_first(), filter);
        if filter_allows(filter, tools[0].name) {
            seq![tools[0]] + rest
        } else {
            rest
        }
    }
}

/// Filtering passes exactly the allowed names: with `Include(s)` only tools
/// named in `s` survive, with `Exclude(s)` only tools not named in `s`.
pub proof fn lemma_filter_tools_allowed(tools: Seq<ToolSpecView>, filter: ToolFilterView)
    ensures
        forall|i: int|
            0 <= i < spec_filter_tools(tools, filter).len() ==> filter_allows(
                filter,
                (#[trigger] spec_filter_tools(tools, filter)[i]).name,
            ),
    decreases tools.len(),
{
    if tools.len() > 0 {
        lemma_filter_tools_allowed(tools.drop_first(), filter);
    }
}

/// A tool the filter allows is never dropped: filtering keeps every element
/// whose name passes, so a catalog of allowed tools survives whole.
pub proof fn lemma_filter_tools_complete(tools: Seq<ToolSpecView>, filter: ToolFilterView)
    requires
        forall|i: int| 0 <= i < tools.len() ==> filter_allows(filter, (#[trigger] tools[i]).name),
    ensures
        spec_filter_tools(tools, filter) == tools,
    decreases tools.len(),
{
    if tools.len() > 0 {
        assert(filter_allows(filter, tools[0].name));
        lemma_filter_tools_complete(tools.drop_first(), filter);
        assert(spec_filter_tools(tools, filter) =~= tools);
    }
}

/// An absent filter, which behaves as `Exclude` of the empty set, passes
/// the whole catalog unchanged.
pub proof fn lemma_no_filter_allows_all(tools: Seq<ToolSpecView>)
    ensures
        spec_filter_tools(tools, ToolFilterView::Exclude(Set::empty())) == tools,
{
    lemma_filter_tools_complete(tools, ToolFilterView::Exclude(Set::empty()));
}

/// Keeps, in order, exactly the advertised tools the filter lets through.
pub fn filter_tools(tools: Vec<ToolSpec>, filter: &ToolFilter) -> (r: Vec<ToolSpec>)
    ensures
        r.deep_view() == spec_filter_tools(tools.deep_view(), filter.deep_view()),
{
    let mut r: Vec<ToolSpec> = Vec::new();
    let ghost all: Seq<ToolSpecView> = tools.deep_view();
    let mut i: usize = 0;
    proof {
        assert(all.subrange(0, all.len() as int) =~= all);
        assert(r.deep_view() =~= Seq::<ToolSpecView>::empty());
        assert(r.deep_view() + spec_filter_tools(all, filter.deep_view()) =~= spec_filter_tools(
            all,
            filter.deep_view(),
        ));
    }
    while i < tools.len()
        invariant
            i <= tools.len(),
            all == tools.deep_view(),
            spec_filter_tools(all, filter.deep_view()) =~= r.deep_view() + spec_filter_tools(
                all.subrange(i as int, all.len() as int),
                filter.deep_view(),
            ),
        decreases tools.len() - i,
    {
        let allowed = match &*filter {
            ToolFilter::Include(names) => contains_name(names, &tools[i].name),
            ToolFilter::Exclude(names) => !contains_name(names, &tools[i].name),
        };
        let ghost suffix: Seq<ToolSpecView> = all.subrange(i as int, all.len() as int);
        let ghost done: Seq<ToolSpecView> = r.deep_view();
        proof {
            assert(all[i as int] == tools@[i as int].deep_view());
            assert(suffix[0] == all[i as int]);
            assert(suffix.drop_first() =~= all.subrange(i + 1, all.len() as int));
            assert(allowed == filter_allows(filter.deep_view(), all[i as int].name));
        }
        if allowed {
            let converted = tools[i].clone_spec();
            r.push(converted);
            proof {
                assert(converted.deep_view() == all[i as int]);
                assert(spec_filter_tools(suffix, filter.deep_view()) == seq![all[i as int]]
                    + spec_filter_tools(suffix.drop_first(), filter.deep_view()));
                assert(r.deep_view() =~= done.push(all[i as int]));
                assert(done.push(all[i as int]) + spec_filter_tools(
                    suffix.drop_first(),
                    filter.deep_view(),
                ) =~= done + spec_filter_tools(suffix, filter.deep_view()));
            }
        } else {
            proof {
                assert(spec_filter_tools(suffix, filter.deep_view()) == spec_filter_tools(
                    suffix.drop_first(),
                    filter.deep_view(),
                ));
            }
        }
        proof {
            assert(spec_filter_tools(all, filter.deep_view()) =~= r.deep_view()
                + spec_filter_tools(
                all.subrange(i + 1, all.len() as int),
                filter.deep_view(),
            ));
        }
        i += 1;
    }
    proof {
        assert(all.subrange(all.len() as int, all.len() as int).len() == 0);
        assert(r.deep_view() + spec_filter_tools(
            all.subrange(all.len() as int, all.len() as int),
            filter.deep_view(),
        ) =~= r.deep_view());
    }
    r
}

/// The outcome of one tool invocation as the MCP boundary reports it: a
/// text payload, or some other content kind the gateway does not accept.
#[derive(Debug, PartialEq)]
pub enum ToolContent {
    Text(String),
    Unsupported,
}

/// Mathematical model of a [`ToolContent`].
pub enum ToolContentView {
    Text(Seq<char>),
    Unsupported,
}

impl DeepView for ToolContent {
    type V = ToolContentView;

    open spec fn deep_view(&self) -> ToolContentView {
        match self {
            ToolContent::Text(t) => ToolContentView::Text(t@),
            ToolContent::Unsupported => ToolContentView::Unsupported,
        }
    }
}

/// Accepts a tool result exactly when it is one text payload: multi-part
/// and non-text results are refused as unsupported responses, never
/// approximated.
pub fn tool_result_text(content: Vec<ToolContent>) -> (r: Result<String, Error>)
    ensures
        r is Ok <==> (content.deep_view().len() == 1 && content.deep_view()[0] is Text),
        r matches Ok(t) ==> content.deep_view()[0] == ToolContentView::Text(t@),
        r matches Err(e) ==> e.status == 500,
{
    let mut content = content;
    proof {
        assert(content.deep_view().len() == content@.len());
    }
    if content.len() != 1 {
        return Err(Error::protocol(String::from_str("Unsupported tool response")));
    }
    match content.remove(0) {
        ToolContent::Text(t) => Ok(t),
        ToolContent::Unsupported => Err(
            Error::protocol(String::from_str("Unsupported tool response")),
        ),
    }
}

/// Whether `names` holds a string whose characters equal `name`.
pub fn contains_name(names: &Vec<String>, name: &String) -> (r: bool)
    ensures
        r == names.deep_view().to_set().contains(name@),
{
    let mut i: usize = 0;
    while i < names.len()
        invariant
            i <= names.len(),
            forall|j: int| 0 <= j < i ==> names.deep_view()[j] != name@,
        decreases names.len() - i,
    {
        if names[i].eq(name) {
            proof {
                assert(names.deep_view()[i as int] == name@);
            }
            return true;
        }
        i += 1;
    }
    proof {
        if names.deep_view().to_set().contains(name@) {
            let j = choose|j: int| 0 <= j < names.deep_view().len()
                && names.deep_view()[j] == name@;
            assert(names.deep_view()[j] != name@);
        }
    }
    false
}

} // verus!
