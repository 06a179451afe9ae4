use vstd::prelude::*;

use crate::error::Error;
use crate::mcp::{ToolCall, ToolCallView, clone_calls};
use crate::models::{
    ManagerBody, BodyView, Message, MessageView, ModelDecision, DecisionView, Role, TextMessage,
    ToolOutputType, UsageTokens, spec_add_saturating, lemma_vec_push_deep_view,
};

verus! {

/// The most model calls one request may make. A turn that still asks for
/// tools once the budget is spent fails the request instead of looping on
/// a misbehaving model.
pub const MAX_TURNS: u32 = 25;

/// The output fed back to the model when it names a tool no provider of
/// the workspace advertises.
pub const UNKNOWN_TOOL_OUTPUT: &'static str = "Function doesn't exist";

/// The workspace's tool routing table: each advertised tool name paired
/// with the index of the provider that advertised it, in registration
/// order. A name registered twice resolves to its last registration.
#[derive(Debug, PartialEq)]
pub struct ToolRegistry {
    pub entries: Vec<(String, usize)>,
}

impl DeepView for ToolRegistry {
    type V = Seq<(Seq<char>, usize)>;

    open spec fn deep_view(&self) -> Seq<(Seq<char>, usize)> {
        self.entries.deep_view()
    }
}

/// The provider a tool name resolves to: the last registration of that
/// name wins, and an unregistered name resolves to nothing.
pub open spec fn spec_resolve(entries: Seq<(Seq<char>, usize)>, name: Seq<char>) -> Option<usize>
    decreases entries.len(),
{
    if entries.len() == 0 {
        None
    } else if entries.last().0 == name {
        Some(entries.last().1)
    } else {
        spec_resolve(entries.drop_last(), name)
    }
}

impl ToolRegistry {
    /// A table with nothing registered.
    pub fn new() -> (r: ToolRegistry)
        ensures
            r.deep_view() == Seq::<(Seq<char>, usize)>::empty(),
    {
        let r = ToolRegistry { entries: Vec::new() };
        proof {
            assert(r.deep_view() =~= Seq::<(Seq<char>, usize)>::empty());
        }
        r
    }

    /// Registers one tool name for the provider with the given index; a
    /// later registration of the same name shadows this one.
    pub fn register(&mut self, name: String, provider: usize)
        ensures
            final(self).deep_view() == old(self).deep_view().push((name@, provider)),
    {
        let ghost pre: Vec<(String, usize)> = self.entries;
        self.entries.push((name, provider));
        proof {
            lemma_vec_push_deep_view(pre, self.entries, self.entries@[pre@.len() as int]);
        }
    }

    /// Resolves a tool name to its provider, last registration first.
    pub fn resolve(&self, name: &String) -> (r: Option<usize>)
        ensures
            r == spec_resolve(self.deep_view(), name@),
    {
        let mut i: usize = self.entries.len();
        proof {
            assert(self.deep_view().subrange(0, self.deep_view().len() as int)
                =~= self.deep_view());
            assert(self.deep_view().len() == self.entries@.len());
        }
        while i > 0
            invariant
                i <= self.entries.len(),
                spec_resolve(self.deep_view(), name@) == spec_resolve(
                    self.deep_view().subrange(0, i as int),
                    name@,
                ),
            decreases i,
        {
            i -= 1;
            let entry = &self.entries[i];
            let ghost prefix: Seq<(Seq<char>, usize)> = self.deep_view().subrange(0, i + 1);
            proof {
                assert(self.deep_view()[i as int] == self.entries@[i as int].deep_view());
                assert(prefix.last() == self.deep_view()[i as int]);
                assert(prefix.drop_last() =~= self.deep_view().subrange(0, i as int));
            }
            if entry.0.eq(name) {
                proof {
                    assert(spec_resolve(prefix, name@) == Some(self.entries@[i as int].1));
                }
                return Some(entry.1);
            }
            proof {
                assert(spec_resolve(prefix, name@) == spec_resolve(
                    self.deep_view().subrange(0, i as int),
                    name@,
                ));
            }
        }
        proof {
            assert(self.deep_view().subrange(0, 0).len() == 0);
        }
        None
    }
}

/// The per-request state of the tool-calling loop: the conversation built
/// so far, the accumulated usage, the routing table, the decisions of the
/// current turn with a cursor over them, the tool batch waiting for its
/// outputs, whether this turn asked for tools, and how many model calls
/// were made.
pub struct LoopState {
    pub body: ManagerBody,
    pub usage: UsageTokens,
    pub registry: ToolRegistry,
    pub decisions: Vec<ModelDecision>,
    pub next_decision: usize,
    pub pending: Vec<(ToolCall, Option<usize>)>,
    pub saw_tool_calls: bool,
    pub turns: u32,
}

/// Mathematical model of a [`LoopState`].
pub struct LoopView {
    pub body: BodyView,
    pub usage: UsageTokens,
    pub registry: Seq<(Seq<char>, usize)>,
    pub decisions: Seq<DecisionView>,
    pub next_decision: int,
    pub pending: Seq<(ToolCallView, Option<usize>)>,
    pub saw_tool_calls: bool,
    pub turns: u32,
}

impl DeepView for LoopState {
    type V = LoopView;

    open spec fn deep_view(&self) -> LoopView {
        LoopView {
            body: self.body.deep_view(),
            usage: self.usage,
            registry: self.registry.deep_view(),
            decisions: self.decisions.deep_view(),
            next_decision: self.next_decision as int,
            pending: self.pending.deep_view(),
            saw_tool_calls: self.saw_tool_calls,
            turns: self.turns,
        }
    }
}

/// The assistant message one text decision becomes.
pub open spec fn spec_assistant_text(content: Seq<char>) -> MessageView {
    MessageView::Text { role: Role::Assistant, content }
}

/// The assistant message holding one whole tool-call batch.
pub open spec fn spec_tool_calls_message(calls: Seq<ToolCallView>) -> MessageView {
    MessageView::ToolCalls { role: Role::Assistant, calls }
}

/// The tool-output message answering one call.
pub open spec fn spec_tool_output_message(call_id: Seq<char>, output: Seq<char>) -> MessageView {
    MessageView::ToolOutput {
        output_type: ToolOutputType::FunctionCallOutput,
        call_id,
        output,
    }
}

/// A call batch paired with each call's resolved provider.
pub open spec fn spec_resolved_batch(
    registry: Seq<(Seq<char>, usize)>,
    calls: Seq<ToolCallView>,
) -> Seq<(ToolCallView, Option<usize>)> {
    calls.map_values(|c: ToolCallView| (c, spec_resolve(registry, c.name)))
}

/// A conversation with one more message, other fields unchanged.
pub open spec fn spec_body_push(body: BodyView, m: MessageView) -> BodyView {
    BodyView {
        messages: body.messages.push(m),
        temperature: body.temperature,
        max_tokens: body.max_tokens,
        top_p: body.top_p,
    }
}

/// What receiving one model response does to the state: the decisions
/// become the new turn's queue with the cursor at its front, the usage is
/// accumulated, the turn counter grows by one (clamped at its type's
/// bound), no tools have been asked for yet, and the conversation is
/// untouched.
pub open spec fn spec_on_model_response(
    s: LoopView,
    ds: Seq<DecisionView>,
    u: UsageTokens,
) -> LoopView {
    LoopView {
        body: s.body,
        usage: spec_add_saturating(s.usage, u),
        registry: s.registry,
        decisions: ds,
        next_decision: 0,
        pending: Seq::empty(),
        saw_tool_calls: false,
        turns: if s.turns < u32::MAX {
            (s.turns + 1) as u32
        } else {
            u32::MAX
        },
    }
}

/// What the loop does next, as the spec-level action.
pub enum ActionView {
    /// One text decision was appended to the conversation; ask again.
    Working,
    /// A tool-call batch was appended and resolved; dispatch it.
    DispatchTools,
    /// The turn is over and asked for tools: call the model again.
    CallModel,
    /// The turn produced only text: answer the caller.
    Respond,
    /// The turn budget is spent.
    Fail,
}

/// One step of working through the turn's decisions. A text decision
/// joins the conversation as an assistant message. A tool-call decision
/// joins it as one assistant message holding the whole batch, and the
/// batch, each call resolved by name, becomes the pending dispatch; an
/// unknown name stays in the batch with no provider rather than failing
/// the request. Once the queue is done, the loop calls the model again if
/// this turn asked for tools and the budget allows, fails if the budget
/// is spent, and otherwise answers the caller.
pub open spec fn spec_next(s: LoopView) -> (LoopView, ActionView) {
    if s.next_decision < s.decisions.len() {
        match s.decisions[s.next_decision] {
            DecisionView::Text(t) => (
                LoopView {
                    body: spec_body_push(s.body, spec_assistant_text(t)),
                    next_decision: s.next_decision + 1,
                    ..s
                },
                ActionView::Working,
            ),
            DecisionView::ToolCalls(cs) => (
                LoopView {
                    body: spec_body_push(s.body, spec_tool_calls_message(cs)),
                    next_decision: s.next_decision + 1,
                    pending: spec_resolved_batch(s.registry, cs),
                    saw_tool_calls: true,
                    ..s
                },
                ActionView::DispatchTools,
            ),
        }
    } else if s.saw_tool_calls {
        if s.turns >= MAX_TURNS {
            (s, ActionView::Fail)
        } else {
            (s, ActionView::CallModel)
        }
    } else {
        (s, ActionView::Respond)
    }
}

/// What the loop asks its driver to do next.
#[derive(Debug, PartialEq)]
pub enum LoopAction {
    /// One text decision was absorbed; ask again.
    Working,
    /// A tool batch was appended and resolved: run the pending calls in
    /// order and hand their outputs back.
    DispatchTools,
    /// The turn is over and asked for tools: call the model again.
    CallModel,
    /// The turn produced only text: answer with the conversation.
    Respond,
    /// The turn budget is spent: fail the request.
    Fail(Error),
}

impl LoopAction {
    /// The spec-level action this action stands for.
    pub open spec fn action_view(&self) -> ActionView {
        match self {
            LoopAction::Working => ActionView::Working,
            LoopAction::DispatchTools => ActionView::DispatchTools,
            LoopAction::CallModel => ActionView::CallModel,
            LoopAction::Respond => ActionView::Respond,
            LoopAction::Fail(_) => ActionView::Fail,
        }
    }
}

fn resolve_batch(registry: &ToolRegistry, calls: &Vec<ToolCall>) -> (r: Vec<(
    ToolCall,
    Option<usize>,
)>)
    ensures
        r.deep_view() == spec_resolved_batch(registry.deep_view(), calls.deep_view()),
{
    let mut r: Vec<(ToolCall, Option<usize>)> = Vec::new();
    let mut i: usize = 0;
    while i < calls.len()
        invariant
            i <= calls.len(),
            r@.len() == i,
            r.deep_view() =~= spec_resolved_batch(
                registry.deep_view(),
                calls.deep_view().subrange(0, i as int),
            ),
        decreases calls.len() - i,
    {
        let call = &calls[i];
        let who = registry.resolve(&call.name);
        let converted = (call.clone(), who);
        let ghost converted_snap: (ToolCall, Option<usize>) = converted;
        r.push(converted);
        proof {
            assert(calls.deep_view()[i as int] == calls@[i as int].deep_view());
            assert(converted_snap.deep_view() == (
                calls.deep_view()[i as int],
                spec_resolve(registry.deep_view(), calls.deep_view()[i as int].name),
            ));
            assert(calls.deep_view().subrange(0, i + 1) =~= calls.deep_view().subrange(
                0,
                i as int,
            ).push(calls.deep_view()[i as int]));
            let sub = calls.deep_view().subrange(0, i + 1);
            assert forall|j: int| 0 <= j < r@.len() implies r.deep_view()[j]
                == spec_resolved_batch(registry.deep_view(), sub)[j] by {
                assert(r.deep_view()[j] == r@[j].deep_view());
                if j < i {
                    assert(r@[j].deep_view() == spec_resolved_batch(
                        registry.deep_view(),
                        calls.deep_view().subrange(0, i as int),
                    )[j]);
                } else {
                    assert(r@[j] == converted_snap);
                }
            }
            assert(r.deep_view().len() == r@.len());
            assert(r.deep_view() =~= spec_resolved_batch(registry.deep_view(), sub));
        }
        i += 1;
    }
    proof {
        assert(calls.deep_view().subrange(0, calls.deep_view().len() as int) =~= calls.deep_view());
    }
    r
}

impl LoopState {
    /// The state a request starts from: the caller's conversation, zero
    /// usage, the workspace's routing table, and nothing decided yet. The
    /// driver's first move is to call the model on the conversation.
    pub fn start(body: ManagerBody, registry: ToolRegistry) -> (s: LoopState)
        ensures
            s.deep_view() == (LoopView {
                body: body.deep_view(),
                usage: UsageTokens { completion_tokens: 0, prompt_tokens: 0, total_tokens: 0 },
                registry: registry.deep_view(),
                decisions: Seq::empty(),
                next_decision: 0,
                pending: Seq::empty(),
                saw_tool_calls: false,
                turns: 0,
            }),
    {
        let s = LoopState {
            body,
            usage: UsageTokens::zero(),
            registry,
            decisions: Vec::new(),
            next_decision: 0,
            pending: Vec::new(),
            saw_tool_calls: false,
            turns: 0,
        };
        proof {
            assert(s.decisions.deep_view() =~= Seq::<DecisionView>::empty());
            assert(s.pending.deep_view() =~= Seq::<(ToolCallView, Option<usize>)>::empty());
        }
        s
    }

    /// Takes one model response in: the decisions become the new turn's
    /// queue and the usage is accumulated, while the conversation stays
    /// as it was.
    pub fn on_model_response(&mut self, decisions: Vec<ModelDecision>, usage: UsageTokens)
        ensures
            final(self).deep_view() == spec_on_model_response(
                old(self).deep_view(),
                decisions.deep_view(),
                usage,
            ),
    {
        self.usage.add_saturating(&usage);
        self.decisions = decisions;
        self.next_decision = 0;
        self.pending = Vec::new();
        self.saw_tool_calls = false;
        if self.turns < u32::MAX {
            self.turns = self.turns + 1;
        }
        proof {
            assert(self.pending.deep_view() =~= Seq::<(ToolCallView, Option<usize>)>::empty());
        }
    }

    /// The batch waiting for outputs, each call with its resolved
    /// provider; the driver runs the resolved calls in batch order.
    pub fn pending_calls(&self) -> (r: &Vec<(ToolCall, Option<usize>)>)
        ensures
            r.deep_view() == self.deep_view().pending,
    {
        &self.pending
    }

    /// Works through the turn: each call performs one step of
    /// [`spec_next`] on the state and says what the driver must do.
    pub fn next_action(&mut self) -> (r: LoopAction)
        ensures
            final(self).deep_view() == spec_next(old(self).deep_view()).0,
            r.action_view() == spec_next(old(self).deep_view()).1,
            r matches LoopAction::Fail(e) ==> e.status == 500,
    {
        if self.next_decision < self.decisions.len() {
            proof {
                assert(old(self).deep_view().decisions[old(self).next_decision as int]
                    == old(self).decisions@[old(self).next_decision as int].deep_view());
            }
            let step: LoopAction;
            match &self.decisions[self.next_decision] {
                ModelDecision::TextMessage(t) => {
                    let msg = Message::TextMessage(
                        TextMessage { role: Role::Assistant, content: t.clone() },
                    );
                    proof {
                        assert(msg.deep_view() == spec_assistant_text(
                            old(self).deep_view().decisions[
                                old(self).next_decision as int
                            ]->Text_0,
                        ));
                    }
                    self.body.append_message(msg);
                    step = LoopAction::Working;
                },
                ModelDecision::ToolCalls(calls) => {
                    let msg_calls = clone_calls(calls);
                    let resolved = resolve_batch(&self.registry, calls);
                    proof {
                        assert(msg_calls.deep_view() =~= calls.deep_view());
                        assert(resolved.deep_view() == spec_resolved_batch(
                            old(self).deep_view().registry,
                            old(self).deep_view().decisions[
                                old(self).next_decision as int
                            ]->ToolCalls_0,
                        ));
                    }
                    let msg = Message::ToolCalls { role: Role::Assistant, tool_calls: msg_calls };
                    self.body.append_message(msg);
                    self.pending = resolved;
                    self.saw_tool_calls = true;
                    step = LoopAction::DispatchTools;
                },
            }
            self.next_decision = self.next_decision + 1;
            step
        } else if self.saw_tool_calls {
            if self.turns >= MAX_TURNS {
                LoopAction::Fail(
                    Error { status: 500, message: String::from_str("Tool call limit reached") },
                )
            } else {
                LoopAction::CallModel
            }
        } else {
            LoopAction::Respond
        }
    }
}

/// How many calls of a pending batch resolved to a provider; the driver
/// owes one output per resolved call.
pub open spec fn spec_known_count(pending: Seq<(ToolCallView, Option<usize>)>) -> nat
    decreases pending.len(),
{
    if pending.len() == 0 {
        0
    } else {
        (if pending[0].1 is Some {
            1nat
        } else {
            0nat
        }) + spec_known_count(pending.drop_first())
    }
}

/// The tool-output messages one dispatched batch appends: one message per
/// call, in batch order, each correlated by the call's id; a resolved
/// call carries the next collected output, an unresolved one carries the
/// unknown-tool text so the model can react.
pub open spec fn spec_output_messages(
    pending: Seq<(ToolCallView, Option<usize>)>,
    outputs: Seq<Seq<char>>,
) -> Seq<MessageView>
    decreases pending.len(),
{
    if pending.len() == 0 {
        Seq::empty()
    } else {
        match pending[0].1 {
            Some(_) => {
                let head = if outputs.len() > 0 {
                    outputs[0]
                } else {
                    Seq::empty()
                };
                let rest = if outputs.len() > 0 {
                    outputs.drop_first()
                } else {
                    outputs
                };
                seq![spec_tool_output_message(pending[0].0.id, head)] + spec_output_messages(
                    pending.drop_first(),
                    rest,
                )
            },
            None => seq![
                spec_tool_output_message(pending[0].0.id, UNKNOWN_TOOL_OUTPUT@),
            ] + spec_output_messages(pending.drop_first(), outputs),
        }
    }
}

impl LoopState {
    /// Appends the batch's outputs to the conversation: one tool-output
    /// message per pending call, in batch order, resolved calls consuming
    /// the collected outputs in order and unresolved ones answered with
    /// the unknown-tool text. The batch is then done.
    #[verifier::rlimit(40)]
    pub fn apply_tool_outputs(&mut self, outputs: Vec<String>)
        requires
            spec_known_count(old(self).deep_view().pending) == outputs@.len(),
        ensures
            final(self).deep_view() == (LoopView {
                body: BodyView {
                    messages: old(self).deep_view().body.messages + spec_output_messages(
                        old(self).deep_view().pending,
                        outputs.deep_view(),
                    ),
                    temperature: old(self).deep_view().body.temperature,
                    max_tokens: old(self).deep_view().body.max_tokens,
                    top_p: old(self).deep_view().body.top_p,
                },
                pending: Seq::empty(),
                ..old(self).deep_view()
            }),
    {
        let ghost pend: Seq<(ToolCallView, Option<usize>)> = self.pending.deep_view();
        let ghost outs: Seq<Seq<char>> = outputs.deep_view();
        let ghost base: BodyView = self.body.deep_view();
        let ghost orig: LoopView = self.deep_view();
        let mut j: usize = 0;
        let mut k: usize = 0;
        proof {
            assert(outputs.deep_view().len() == outputs@.len());
            assert(self.pending.deep_view().len() == self.pending@.len());
            assert(pend.subrange(0, pend.len() as int) =~= pend);
            assert(outs.subrange(0, outs.len() as int) =~= outs);
        }
        while j < self.pending.len()
            invariant
                j <= self.pending@.len(),
                k <= outputs@.len(),
                outs.len() == outputs@.len(),
                outs == outputs.deep_view(),
                pend.len() == self.pending@.len(),
                pend == self.pending.deep_view(),
                self.usage == orig.usage,
                self.registry.deep_view() == orig.registry,
                self.decisions.deep_view() == orig.decisions,
                self.next_decision == orig.next_decision,
                self.saw_tool_calls == orig.saw_tool_calls,
                self.turns == orig.turns,
                self.body.deep_view().temperature == base.temperature,
                self.body.deep_view().max_tokens == base.max_tokens,
                self.body.deep_view().top_p == base.top_p,
                spec_known_count(pend.subrange(j as int, pend.len() as int)) == outs.len() - k,
                base.messages + spec_output_messages(pend, outs) =~= self.body.deep_view().messages
                    + spec_output_messages(
                    pend.subrange(j as int, pend.len() as int),
                    outs.subrange(k as int, outs.len() as int),
                ),
            decreases self.pending@.len() - j,
        {
            let ghost suffix: Seq<(ToolCallView, Option<usize>)> = pend.subrange(
                j as int,
                pend.len() as int,
            );
            let ghost out_suffix: Seq<Seq<char>> = outs.subrange(k as int, outs.len() as int);
            let ghost pre_msgs: Seq<MessageView> = self.body.deep_view().messages;
            proof {
                assert(suffix[0] == pend[j as int]);
                assert(pend[j as int] == self.pending@[j as int].deep_view());
                assert(suffix.drop_first() =~= pend.subrange(j + 1, pend.len() as int));
            }
            let call_id = self.pending[j].0.id.clone();
            let is_known = self.pending[j].1.is_some();
            let output = if is_known {
                proof {
                    assert(spec_known_count(suffix) >= 1);
                    assert(k < outs.len());
                    assert(out_suffix[0] == outs[k as int]);
                    assert(outs[k as int] == outputs@[k as int]@);
                }
                let o = outputs[k].clone();
                k = k + 1;
                o
            } else {
                String::from_str(UNKNOWN_TOOL_OUTPUT)
            };
            let msg = Message::ToolOutput {
                output_type: ToolOutputType::FunctionCallOutput,
                call_id,
                output,
            };
            proof {
                if suffix[0].1 is Some {
                    assert(msg.deep_view() == spec_tool_output_message(
                        suffix[0].0.id,
                        out_suffix[0],
                    ));
                    assert(out_suffix.drop_first() =~= outs.subrange(k as int, outs.len() as int));
                } else {
                    assert(msg.deep_view() == spec_tool_output_message(
                        suffix[0].0.id,
                        UNKNOWN_TOOL_OUTPUT@,
                    ));
                }
            }
            self.body.append_message(msg);
            proof {
                assert(spec_output_messages(suffix, out_suffix) == seq![msg.deep_view()]
                    + spec_output_messages(
                    pend.subrange(j + 1, pend.len() as int),
                    outs.subrange(k as int, outs.len() as int),
                ));
                assert(pre_msgs.push(msg.deep_view()) + spec_output_messages(
                    pend.subrange(j + 1, pend.len() as int),
                    outs.subrange(k as int, outs.len() as int),
                ) =~= pre_msgs + spec_output_messages(suffix, out_suffix));
            }
            j = j + 1;
        }
        self.pending.clear();
        proof {
            assert(pend.subrange(pend.len() as int, pend.len() as int).len() == 0);
            assert(outs.subrange(outs.len() as int, outs.len() as int).len() == 0);
            assert(self.pending.deep_view() =~= Seq::<(ToolCallView, Option<usize>)>::empty());
            assert(self.body.deep_view().messages =~= base.messages + spec_output_messages(
                pend,
                outs,
            ));
        }
    }
}

/// Draining a turn: steps of [`spec_next`] applied while they merely
/// absorb text decisions, ending at the first action the driver must act
/// on.
pub open spec fn spec_drain(s: LoopView) -> (LoopView, ActionView)
    decreases s.decisions.len() - s.next_decision,
{
    if 0 <= s.next_decision < s.decisions.len() {
        let stepped = spec_next(s);
        if stepped.1 is Working {
            spec_drain(stepped.0)
        } else {
            (stepped.0, stepped.1)
        }
    } else {
        spec_next(s)
    }
}

/// The assistant messages a run of text decisions appends, in order.
pub open spec fn spec_text_messages(ds: Seq<DecisionView>) -> Seq<MessageView> {
    ds.map_values(|d: DecisionView| spec_assistant_text(d->Text_0))
}

/// Draining a queue of nothing but text decisions ends the turn: every
/// decision is appended as an assistant text message, in order, and the
/// loop answers the caller without asking for tools or another model
/// call.
pub proof fn lemma_drain_text_only(s: LoopView)
    requires
        0 <= s.next_decision <= s.decisions.len(),
        forall|i: int|
            s.next_decision <= i < s.decisions.len() ==> (#[trigger] s.decisions[i]) is Text,
        !s.saw_tool_calls,
    ensures
        spec_drain(s).1 is Respond,
        spec_drain(s).0.body.messages == s.body.messages + spec_text_messages(
            s.decisions.subrange(s.next_decision, s.decisions.len() as int),
        ),
        spec_drain(s).0.body.temperature == s.body.temperature,
        spec_drain(s).0.body.max_tokens == s.body.max_tokens,
        spec_drain(s).0.body.top_p == s.body.top_p,
        spec_drain(s).0.pending == s.pending,
        spec_drain(s).0.usage == s.usage,
    decreases s.decisions.len() - s.next_decision,
{
    let remaining = s.decisions.subrange(s.next_decision, s.decisions.len() as int);
    if s.next_decision < s.decisions.len() {
        let stepped = spec_next(s);
        assert(s.decisions[s.next_decision] is Text);
        lemma_drain_text_only(stepped.0);
        assert(remaining[0] == s.decisions[s.next_decision]);
        assert(remaining.drop_first() =~= stepped.0.decisions.subrange(
            stepped.0.next_decision,
            stepped.0.decisions.len() as int,
        ));
        assert(spec_text_messages(remaining)[0] == spec_assistant_text(remaining[0]->Text_0));
        assert(spec_text_messages(remaining).drop_first() =~= spec_text_messages(
            remaining.drop_first(),
        ));
        assert(s.body.messages.push(spec_assistant_text(remaining[0]->Text_0))
            + spec_text_messages(remaining.drop_first()) =~= s.body.messages
            + spec_text_messages(remaining));
    } else {
        assert(remaining.len() == 0);
        assert(spec_text_messages(remaining) =~= Seq::<MessageView>::empty());
        assert(s.body.messages + spec_text_messages(remaining) =~= s.body.messages);
    }
}

/// A turn whose model response holds only text decisions ends the loop
/// after that one model call: the driver is told to respond, and the
/// conversation equals the one sent to the model plus one assistant text
/// message per decision, in order.
pub proof fn lemma_text_only_turn_responds(s: LoopView, ds: Seq<DecisionView>, u: UsageTokens)
    requires
        forall|i: int| 0 <= i < ds.len() ==> (#[trigger] ds[i]) is Text,
    ensures
        ({
            let turn = spec_drain(spec_on_model_response(s, ds, u));
            &&& turn.1 is Respond
            &&& turn.0.body.messages == s.body.messages + spec_text_messages(ds)
            &&& turn.0.body.temperature == s.body.temperature
            &&& turn.0.body.max_tokens == s.body.max_tokens
            &&& turn.0.body.top_p == s.body.top_p
        }),
{
    let s1 = spec_on_model_response(s, ds, u);
    lemma_drain_text_only(s1);
    assert(s1.decisions.subrange(0, s1.decisions.len() as int) =~= ds);
}


/// A prefix never holds more resolved calls than the whole batch.
pub proof fn lemma_known_count_prefix(
    pending: Seq<(ToolCallView, Option<usize>)>,
    i: int,
)
    requires
        0 <= i <= pending.len(),
    ensures
        spec_known_count(pending.subrange(0, i)) <= spec_known_count(pending),
    decreases pending.len(),
{
    if i == 0 {
        assert(pending.subrange(0, 0).len() == 0);
    } else {
        let rest = pending.drop_first();
        assert(pending.subrange(0, i)[0] == pending[0]);
        assert(pending.subrange(0, i).drop_first() =~= rest.subrange(0, i - 1));
        lemma_known_count_prefix(rest, i - 1);
    }
}

/// Extending a prefix by one call adds that call's resolution to the
/// count.
pub proof fn lemma_known_count_snoc(
    pending: Seq<(ToolCallView, Option<usize>)>,
    i: int,
)
    requires
        0 <= i < pending.len(),
    ensures
        spec_known_count(pending.subrange(0, i + 1)) == spec_known_count(pending.subrange(0, i)) + (
        if pending[i].1 is Some {
            1nat
        } else {
            0nat
        }),
    decreases pending.len(),
{
    if i == 0 {
        assert(pending.subrange(0, 1)[0] == pending[0]);
        assert(pending.subrange(0, 1).drop_first() =~= pending.subrange(0, 0));
        assert(pending.subrange(0, 0).len() == 0);
        assert(pending.subrange(0, 1).drop_first().len() == 0);
    } else {
        let rest = pending.drop_first();
        assert(pending.subrange(0, i + 1)[0] == pending[0]);
        assert(pending.subrange(0, i)[0] == pending[0]);
        assert(pending.subrange(0, i + 1).drop_first() =~= rest.subrange(0, i));
        assert(pending.subrange(0, i).drop_first() =~= rest.subrange(0, i - 1));
        lemma_known_count_snoc(rest, i - 1);
        assert(rest[i - 1] == pending[i]);
    }
}

/// One dispatched batch of N calls appends exactly N tool-output
/// messages, in batch order, each correlated to its call's id. A call
/// whose name resolved to a provider carries that call's collected
/// output; a call whose name no provider advertises does not abort the
/// request but carries the unknown-tool text, so the next model
/// invocation sees it.
pub proof fn lemma_outputs_follow_calls(
    pending: Seq<(ToolCallView, Option<usize>)>,
    outputs: Seq<Seq<char>>,
)
    requires
        spec_known_count(pending) == outputs.len(),
    ensures
        spec_output_messages(pending, outputs).len() == pending.len(),
        forall|i: int|
            0 <= i < pending.len() ==> #[trigger] spec_output_messages(pending, outputs)[i]
                == spec_tool_output_message(
                pending[i].0.id,
                match pending[i].1 {
                    Some(_) => outputs[spec_known_count(pending.subrange(0, i)) as int],
                    None => UNKNOWN_TOOL_OUTPUT@,
                },
            ),
    decreases pending.len(),
{
    if pending.len() > 0 {
        let rest = pending.drop_first();
        let rest_outputs = if pending[0].1 is Some {
            outputs.drop_first()
        } else {
            outputs
        };
        lemma_outputs_follow_calls(rest, rest_outputs);
        assert(pending.subrange(0, 0).len() == 0);
        assert(spec_known_count(pending.subrange(0, 0)) == 0);
        assert forall|i: int| 0 <= i < pending.len() implies #[trigger] spec_output_messages(
            pending,
            outputs,
        )[i] == spec_tool_output_message(
            pending[i].0.id,
            match pending[i].1 {
                Some(_) => outputs[spec_known_count(pending.subrange(0, i)) as int],
                None => UNKNOWN_TOOL_OUTPUT@,
            },
        ) by {
            if i == 0 {
            } else {
                assert(spec_output_messages(pending, outputs)[i] == spec_output_messages(
                    rest,
                    rest_outputs,
                )[i - 1]);
                assert(rest[i - 1] == pending[i]);
                assert(pending.subrange(0, i).drop_first() =~= rest.subrange(0, i - 1));
                assert(spec_known_count(pending.subrange(0, i)) == (if pending[0].1 is Some {
                    1nat
                } else {
                    0nat
                }) + spec_known_count(rest.subrange(0, i - 1))) by {
                    assert(pending.subrange(0, i)[0] == pending[0]);
                }
                if rest[i - 1].1 is Some {
                    let m = spec_known_count(rest.subrange(0, i - 1)) as int;
                    lemma_known_count_snoc(rest, i - 1);
                    lemma_known_count_prefix(rest, i);
                    assert(m + 1 <= spec_known_count(rest));
                    assert(rest_outputs[m] == outputs[spec_known_count(
                        pending.subrange(0, i),
                    ) as int]);
                }
            }
        }
    }
}

/// A decision that names an unknown tool does not abort the turn: the
/// step still dispatches the batch, and the unknown call stays in it,
/// resolved to no provider, so its answer is the unknown-tool text.
pub proof fn lemma_unknown_tool_recovers(s: LoopView, i: int)
    requires
        0 <= s.next_decision < s.decisions.len(),
        s.decisions[s.next_decision] matches DecisionView::ToolCalls(cs) && 0 <= i < cs.len(),
    ensures
        spec_next(s).1 is DispatchTools,
        ({
            let cs = s.decisions[s.next_decision]->ToolCalls_0;
            &&& spec_next(s).0.pending.len() == cs.len()
            &&& spec_next(s).0.pending[i] == (cs[i], spec_resolve(s.registry, cs[i].name))
        }),
{
}


/// The routing entries a list of advertised catalogs stands for: each
/// tool's name paired with its provider's index, providers in order,
/// starting at `first`.
pub open spec fn spec_registry_entries(
    lists: Seq<Seq<crate::mcp::ToolSpecView>>,
    first: usize,
) -> Seq<(Seq<char>, usize)>
    decreases lists.len(),
{
    if lists.len() == 0 {
        Seq::empty()
    } else {
        lists.first().map_values(|t: crate::mcp::ToolSpecView| (t.name, first))
            + spec_registry_entries(lists.drop_first(), ((first + 1) as usize))
    }
}

/// Builds the workspace's flattened catalog and its routing table from
/// the tool lists the providers advertised, provider by provider: the
/// catalog is the concatenation in provider order, and each tool's name
/// is registered for its provider's index, so a duplicated name ends up
/// resolving to its last registration.
pub fn build_catalog(tool_lists: Vec<Vec<crate::mcp::ToolSpec>>) -> (r: (
    Vec<crate::mcp::ToolSpec>,
    ToolRegistry,
))
    ensures
        r.0.deep_view() == tool_lists.deep_view().flatten(),
        r.1.deep_view() == spec_registry_entries(tool_lists.deep_view(), 0),
{
    let ghost lists_view: Seq<Seq<crate::mcp::ToolSpecView>> = tool_lists.deep_view();
    let mut tool_lists = tool_lists;
    let total = tool_lists.len();
    let mut catalog: Vec<crate::mcp::ToolSpec> = Vec::new();
    let mut registry = ToolRegistry::new();
    let mut provider: usize = 0;
    proof {
        assert(lists_view.len() == tool_lists@.len());
        assert(lists_view.len() == total);
        assert(tool_lists.deep_view() =~= lists_view.subrange(0, lists_view.len() as int));
        assert(catalog.deep_view() =~= Seq::<crate::mcp::ToolSpecView>::empty());
        assert(catalog.deep_view() + lists_view.flatten() =~= lists_view.flatten());
        assert(registry.deep_view() + spec_registry_entries(lists_view, 0)
            =~= spec_registry_entries(lists_view, 0));
    }
    while tool_lists.len() > 0
        invariant
            lists_view.len() <= usize::MAX,
            provider + tool_lists@.len() == lists_view.len(),
            tool_lists.deep_view() =~= lists_view.subrange(
                provider as int,
                lists_view.len() as int,
            ),
            lists_view.flatten() =~= catalog.deep_view() + tool_lists.deep_view().flatten(),
            spec_registry_entries(lists_view, 0) =~= registry.deep_view()
                + spec_registry_entries(tool_lists.deep_view(), provider),
        decreases tool_lists@.len(),
    {
        let ghost remaining: Seq<Seq<crate::mcp::ToolSpecView>> = tool_lists.deep_view();
        let mut list = tool_lists.remove(0);
        proof {
            assert(list.deep_view() == remaining.first());
            assert(tool_lists.deep_view() =~= remaining.drop_first());
            assert(remaining.flatten() == remaining.first() + remaining.drop_first().flatten());
            assert(spec_registry_entries(remaining, provider) == remaining.first().map_values(
                |t: crate::mcp::ToolSpecView| (t.name, provider),
            ) + spec_registry_entries(remaining.drop_first(), ((provider + 1) as usize)));
        }
        let ghost list_view: Seq<crate::mcp::ToolSpecView> = list.deep_view();
        let mut i: usize = 0;
        proof {
            assert(list_view.subrange(0, 0).map_values(
                |t: crate::mcp::ToolSpecView| (t.name, provider),
            ) =~= Seq::<(Seq<char>, usize)>::empty());
            assert(list_view.subrange(0, 0) =~= Seq::<crate::mcp::ToolSpecView>::empty());
        }
        let ghost catalog_base: Seq<crate::mcp::ToolSpecView> = catalog.deep_view();
        let ghost registry_base: Seq<(Seq<char>, usize)> = registry.deep_view();
        while i < list.len()
            invariant
                i <= list@.len(),
                list_view == list.deep_view(),
                list_view.len() == list@.len(),
                catalog.deep_view() =~= catalog_base + list_view.subrange(0, i as int),
                registry.deep_view() =~= registry_base + list_view.subrange(0, i as int)
                    .map_values(|t: crate::mcp::ToolSpecView| (t.name, provider)),
            decreases list@.len() - i,
        {
            let tool = &list[i];
            registry.register(tool.name.clone(), provider);
            let copied = tool.clone_spec();
            let ghost copied_snap: crate::mcp::ToolSpec = copied;
            let ghost pre_catalog: Vec<crate::mcp::ToolSpec> = catalog;
            catalog.push(copied);
            proof {
                assert(list_view[i as int] == list@[i as int].deep_view());
                assert(copied_snap.deep_view() == list_view[i as int]);
                assert(list_view.subrange(0, i + 1) =~= list_view.subrange(0, i as int).push(
                    list_view[i as int],
                ));
                lemma_vec_push_deep_view(pre_catalog, catalog, copied_snap);
                assert(catalog.deep_view() =~= catalog_base + list_view.subrange(0, i + 1));
                assert(list_view.subrange(0, i + 1).map_values(
                    |t: crate::mcp::ToolSpecView| (t.name, provider),
                ) =~= list_view.subrange(0, i as int).map_values(
                    |t: crate::mcp::ToolSpecView| (t.name, provider),
                ).push((list_view[i as int].name, provider)));
                assert(registry.deep_view() =~= registry_base + list_view.subrange(0, i + 1)
                    .map_values(|t: crate::mcp::ToolSpecView| (t.name, provider)));
            }
            i += 1;
        }
        proof {
            assert(list_view.subrange(0, list_view.len() as int) =~= list_view);
            assert(catalog.deep_view() =~= catalog_base + list_view);
            assert((catalog_base + list_view) + tool_lists.deep_view().flatten()
                =~= catalog_base + (list_view + tool_lists.deep_view().flatten()));
            assert((registry_base + list_view.map_values(
                |t: crate::mcp::ToolSpecView| (t.name, provider),
            )) + spec_registry_entries(tool_lists.deep_view(), ((provider + 1) as usize))
                =~= registry_base + (list_view.map_values(
                |t: crate::mcp::ToolSpecView| (t.name, provider),
            ) + spec_registry_entries(tool_lists.deep_view(), ((provider + 1) as usize))));
        }
        provider += 1;
    }
    proof {
        assert(tool_lists.deep_view().flatten() =~= Seq::<crate::mcp::ToolSpecView>::empty());
        assert(catalog.deep_view() + tool_lists.deep_view().flatten() =~= catalog.deep_view());
        assert(spec_registry_entries(tool_lists.deep_view(), provider)
            =~= Seq::<(Seq<char>, usize)>::empty());
        assert(registry.deep_view() + spec_registry_entries(tool_lists.deep_view(), provider)
            =~= registry.deep_view());
    }
    (catalog, registry)
}

} // verus!
