//! The chat-completions envelope the gateway speaks: messages, tool calls,
//! requests and responses, with mathematical views for contracts, and the
//! message-list transformations of the orchestration flow.

use vstd::prelude::*;

verus! {

use vstd::string::StringExecFns;
use crate::templater::Parameter;

/// The function a tool call names, with its raw JSON arguments.
#[derive(Debug)]
pub struct FunctionCallDetail {
    pub name: String,
    pub arguments: Option<String>,
}

#[verifier::ext_equal]
pub ghost struct FunctionCallDetailV {
    pub name: Seq<char>,
    pub arguments: Option<Seq<char>>,
}

impl View for FunctionCallDetail {
    type V = FunctionCallDetailV;

    open spec fn view(&self) -> FunctionCallDetailV {
        FunctionCallDetailV {
            name: self.name@,
            arguments: match self.arguments {
                Some(a) => Some(a@),
                None => None,
            },
        }
    }
}

/// The kind of a tool call; only functions exist today.
#[derive(Debug, Clone, Copy, PartialEq, Eq, Structural)]
pub enum ToolType {
    Function,
}

/// One tool call selected by the function-calling model.
#[derive(Debug)]
pub struct ToolCall {
    pub id: String,
    pub function: FunctionCallDetail,
    pub tool_type: ToolType,
}

#[verifier::ext_equal]
pub ghost struct ToolCallV {
    pub id: Seq<char>,
    pub function: FunctionCallDetailV,
    pub tool_type: ToolType,
}

impl View for ToolCall {
    type V = ToolCallV;

    open spec fn view(&self) -> ToolCallV {
        ToolCallV { id: self.id@, function: self.function@, tool_type: self.tool_type }
    }
}

/// One chat message.
#[derive(Debug)]
pub struct Message {
    pub role: String,
    pub content: Option<String>,
    pub model: Option<String>,
    pub tool_calls: Option<Vec<ToolCall>>,
    pub tool_call_id: Option<String>,
}

#[verifier::ext_equal]
pub ghost struct MessageV {
    pub role: Seq<char>,
    pub content: Option<Seq<char>>,
    pub model: Option<Seq<char>>,
    pub tool_calls: Option<Seq<ToolCallV>>,
    pub tool_call_id: Option<Seq<char>>,
}

pub open spec fn opt_view(o: Option<String>) -> Option<Seq<char>> {
    match o {
        Some(s) => Some(s@),
        None => None,
    }
}

impl View for Message {
    type V = MessageV;

    open spec fn view(&self) -> MessageV {
        MessageV {
            role: self.role@,
            content: opt_view(self.content),
            model: opt_view(self.model),
            tool_calls: match self.tool_calls {
                Some(ts) => Some(ts@.map_values(|t: ToolCall| t@)),
                None => None,
            },
            tool_call_id: opt_view(self.tool_call_id),
        }
    }
}

pub open spec fn msgs_view(ms: Seq<Message>) -> Seq<MessageV> {
    ms.map_values(|m: Message| m@)
}

/// Client control of usage reporting on streamed responses.
#[derive(Debug, Clone, Copy, PartialEq, Eq, Structural)]
pub struct StreamOptions {
    pub include_usage: bool,
}

/// The OpenAI-tool encoding of a registry tool, as handed to the
/// function-calling model.
#[derive(Debug)]
pub struct ChatCompletionTool {
    pub name: String,
    pub description: String,
    pub parameters: Vec<Parameter>,
}

#[verifier::ext_equal]
pub ghost struct ChatCompletionToolV {
    pub name: Seq<char>,
    pub description: Seq<char>,
    pub parameters: Seq<crate::templater::ParameterV>,
}

impl View for ChatCompletionTool {
    type V = ChatCompletionToolV;

    open spec fn view(&self) -> ChatCompletionToolV {
        ChatCompletionToolV {
            name: self.name@,
            description: self.description@,
            parameters: self.parameters@.map_values(|p: Parameter| p@),
        }
    }
}

/// The inbound and outbound chat-completions request envelope.
#[derive(Debug)]
pub struct ChatCompletionsRequest {
    pub model: String,
    pub messages: Vec<Message>,
    pub tools: Option<Vec<ChatCompletionTool>>,
    pub stream: bool,
    pub stream_options: Option<StreamOptions>,
    pub metadata: Option<Vec<(String, String)>>,
}

#[verifier::ext_equal]
pub ghost struct ChatCompletionsRequestV {
    pub model: Seq<char>,
    pub messages: Seq<MessageV>,
    pub tools: Option<Seq<ChatCompletionToolV>>,
    pub stream: bool,
    pub stream_options: Option<StreamOptions>,
    pub metadata: Option<Seq<(Seq<char>, Seq<char>)>>,
}

impl View for ChatCompletionsRequest {
    type V = ChatCompletionsRequestV;

    open spec fn view(&self) -> ChatCompletionsRequestV {
        ChatCompletionsRequestV {
            model: self.model@,
            messages: msgs_view(self.messages@),
            tools: match self.tools {
                Some(ts) => Some(ts@.map_values(|t: ChatCompletionTool| t@)),
                None => None,
            },
            stream: self.stream,
            stream_options: self.stream_options,
            metadata: match self.metadata {
                Some(md) => Some(crate::templater::pairs_view(md@)),
                None => None,
            },
        }
    }
}

/// Token accounting an upstream reports.
#[derive(Debug, Clone, Copy, PartialEq, Eq, Structural)]
pub struct Usage {
    pub prompt_tokens: u64,
    pub completion_tokens: u64,
    pub total_tokens: u64,
}

/// One choice of a chat-completions response.
#[derive(Debug)]
pub struct Choice {
    pub message: Message,
    pub finish_reason: Option<String>,
    pub index: Option<u32>,
}

#[verifier::ext_equal]
pub ghost struct ChoiceV {
    pub message: MessageV,
    pub finish_reason: Option<Seq<char>>,
    pub index: Option<u32>,
}

impl View for Choice {
    type V = ChoiceV;

    open spec fn view(&self) -> ChoiceV {
        ChoiceV {
            message: self.message@,
            finish_reason: opt_view(self.finish_reason),
            index: self.index,
        }
    }
}

/// A chat-completions response from an upstream model.
#[derive(Debug)]
pub struct ChatCompletionsResponse {
    pub choices: Vec<Choice>,
    pub usage: Option<Usage>,
    pub model: String,
    pub metadata: Option<Vec<(String, String)>>,
}

#[verifier::ext_equal]
pub ghost struct ChatCompletionsResponseV {
    pub choices: Seq<ChoiceV>,
    pub usage: Option<Usage>,
    pub model: Seq<char>,
    pub metadata: Option<Seq<(Seq<char>, Seq<char>)>>,
}

impl View for ChatCompletionsResponse {
    type V = ChatCompletionsResponseV;

    open spec fn view(&self) -> ChatCompletionsResponseV {
        ChatCompletionsResponseV {
            choices: self.choices@.map_values(|c: Choice| c@),
            usage: self.usage,
            model: self.model@,
            metadata: match self.metadata {
                Some(md) => Some(crate::templater::pairs_view(md@)),
                None => None,
            },
        }
    }
}

impl FunctionCallDetail {
    /// A value copy.
    pub fn duplicate(&self) -> (r: FunctionCallDetail)
        ensures
            r@ == self@,
    {
        FunctionCallDetail {
            name: self.name.clone(),
            arguments: match &self.arguments {
                Some(a) => Some(a.clone()),
                None => None,
            },
        }
    }
}

impl ToolCall {
    /// A value copy.
    pub fn duplicate(&self) -> (r: ToolCall)
        ensures
            r@ == self@,
    {
        ToolCall {
            id: self.id.clone(),
            function: self.function.duplicate(),
            tool_type: self.tool_type,
        }
    }
}

impl Message {
    /// A value copy.
    pub fn duplicate(&self) -> (r: Message)
        ensures
            r@ == self@,
    {
        let tool_calls: Option<Vec<ToolCall>> = match &self.tool_calls {
            Some(ts) => {
                let mut out: Vec<ToolCall> = Vec::new();
                let mut i: usize = 0;
                while i < ts.len()
                    invariant
                        i <= ts@.len(),
                        out@.map_values(|t: ToolCall| t@) =~= ts@.take(i as int).map_values(
                            |t: ToolCall| t@,
                        ),
                    decreases ts@.len() - i,
                {
                    let ghost out_before = out@;
                    out.push(ts[i].duplicate());
                    proof {
                        assert(out@.map_values(|t: ToolCall| t@) =~= out_before.map_values(
                            |t: ToolCall| t@,
                        ).push(ts@[i as int]@));
                        assert(ts@.take(i + 1).map_values(|t: ToolCall| t@) =~= ts@.take(
                            i as int,
                        ).map_values(|t: ToolCall| t@).push(ts@[i as int]@));
                    }
                    i = i + 1;
                }
                proof {
                    assert(ts@.take(ts@.len() as int) =~= ts@);
                }
                Some(out)
            },
            None => None,
        };
        let r = Message {
            role: self.role.clone(),
            content: match &self.content {
                Some(c) => Some(c.clone()),
                None => None,
            },
            model: match &self.model {
                Some(m) => Some(m.clone()),
                None => None,
            },
            tool_calls,
            tool_call_id: match &self.tool_call_id {
                Some(t) => Some(t.clone()),
                None => None,
            },
        };
        proof {
            assert(r@ =~= self@);
        }
        r
    }
}

/// A value copy of a message list.
pub fn duplicate_messages(ms: &Vec<Message>) -> (r: Vec<Message>)
    ensures
        msgs_view(r@) == msgs_view(ms@),
{
    let mut out: Vec<Message> = Vec::new();
    let mut i: usize = 0;
    while i < ms.len()
        invariant
            i <= ms@.len(),
            msgs_view(out@) =~= msgs_view(ms@.take(i as int)),
        decreases ms@.len() - i,
    {
        let ghost out_before = out@;
        out.push(ms[i].duplicate());
        proof {
            assert(msgs_view(out@) =~= msgs_view(out_before).push(ms@[i as int]@));
            assert(msgs_view(ms@.take(i + 1)) =~= msgs_view(ms@.take(i as int)).push(
                ms@[i as int]@,
            ));
        }
        i = i + 1;
    }
    proof {
        assert(ms@.take(ms@.len() as int) =~= ms@);
    }
    out
}

/// A value copy of a parameter list.
pub fn duplicate_params(ps: &Vec<Parameter>) -> (r: Vec<Parameter>)
    ensures
        r@.map_values(|p: Parameter| p@) == ps@.map_values(|p: Parameter| p@),
{
    let mut out: Vec<Parameter> = Vec::new();
    let mut i: usize = 0;
    while i < ps.len()
        invariant
            i <= ps@.len(),
            out@.map_values(|p: Parameter| p@) =~= ps@.take(i as int).map_values(
                |p: Parameter| p@,
            ),
        decreases ps@.len() - i,
    {
        let ghost out_before = out@;
        out.push(ps[i].duplicate());
        proof {
            assert(out@.map_values(|p: Parameter| p@) =~= out_before.map_values(
                |p: Parameter| p@,
            ).push(ps@[i as int]@));
            assert(ps@.take(i + 1).map_values(|p: Parameter| p@) =~= ps@.take(
                i as int,
            ).map_values(|p: Parameter| p@).push(ps@[i as int]@));
        }
        i = i + 1;
    }
    proof {
        assert(ps@.take(ps@.len() as int) =~= ps@);
    }
    out
}

/// A value copy of a string pair list.
pub fn duplicate_pairs(ps: &Vec<(String, String)>) -> (r: Vec<(String, String)>)
    ensures
        crate::templater::pairs_view(r@) == crate::templater::pairs_view(ps@),
{
    let mut out: Vec<(String, String)> = Vec::new();
    let mut i: usize = 0;
    while i < ps.len()
        invariant
            i <= ps@.len(),
            crate::templater::pairs_view(out@) =~= crate::templater::pairs_view(
                ps@.take(i as int),
            ),
        decreases ps@.len() - i,
    {
        let ghost out_before = out@;
        let kv = &ps[i];
        out.push((kv.0.clone(), kv.1.clone()));
        proof {
            assert(crate::templater::pairs_view(out@) =~= crate::templater::pairs_view(
                out_before,
            ).push((ps@[i as int].0@, ps@[i as int].1@)));
            assert(crate::templater::pairs_view(ps@.take(i + 1)) =~= crate::templater::pairs_view(
                ps@.take(i as int),
            ).push((ps@[i as int].0@, ps@[i as int].1@)));
        }
        i = i + 1;
    }
    proof {
        assert(ps@.take(ps@.len() as int) =~= ps@);
    }
    out
}

impl ChatCompletionTool {
    /// A value copy.
    pub fn duplicate(&self) -> (r: ChatCompletionTool)
        ensures
            r@ == self@,
    {
        let r = ChatCompletionTool {
            name: self.name.clone(),
            description: self.description.clone(),
            parameters: duplicate_params(&self.parameters),
        };
        proof {
            assert(r@ =~= self@);
        }
        r
    }
}

impl ChatCompletionsRequest {
    /// A value copy.
    pub fn duplicate(&self) -> (r: ChatCompletionsRequest)
        ensures
            r@ == self@,
    {
        let tools: Option<Vec<ChatCompletionTool>> = match &self.tools {
            Some(ts) => {
                let mut out: Vec<ChatCompletionTool> = Vec::new();
                let mut i: usize = 0;
                while i < ts.len()
                    invariant
                        i <= ts@.len(),
                        out@.map_values(|t: ChatCompletionTool| t@) =~= ts@.take(
                            i as int,
                        ).map_values(|t: ChatCompletionTool| t@),
                    decreases ts@.len() - i,
                {
                    let ghost out_before = out@;
                    out.push(ts[i].duplicate());
                    proof {
                        assert(out@.map_values(|t: ChatCompletionTool| t@) =~= out_before.map_values(
                            |t: ChatCompletionTool| t@,
                        ).push(ts@[i as int]@));
                        assert(ts@.take(i + 1).map_values(|t: ChatCompletionTool| t@) =~= ts@.take(
                            i as int,
                        ).map_values(|t: ChatCompletionTool| t@).push(ts@[i as int]@));
                    }
                    i = i + 1;
                }
                proof {
                    assert(ts@.take(ts@.len() as int) =~= ts@);
                }
                Some(out)
            },
            None => None,
        };
        let r = ChatCompletionsRequest {
            model: self.model.clone(),
            messages: duplicate_messages(&self.messages),
            tools,
            stream: self.stream,
            stream_options: self.stream_options,
            metadata: match &self.metadata {
                Some(md) => Some(duplicate_pairs(md)),
                None => None,
            },
        };
        proof {
            assert(r@ =~= self@);
        }
        r
    }
}

/// A message the final LLM is allowed to see: not a tool-role message, not
/// an empty one, and not an assistant turn that carries tool calls.
pub open spec fn keeps_message(m: MessageV) -> bool {
    !(m.role == "tool"@ || m.content is None || (m.tool_calls is Some
        && m.tool_calls.unwrap().len() > 0))
}

/// Drop the messages that belong to the orchestration itself: tool-role
/// messages, messages without content, and assistant messages bearing tool
/// calls. What remains is exactly the subsequence the final model may see.
pub fn filter_out_arch_messages(messages: &Vec<Message>) -> (r: Vec<Message>)
    ensures
        msgs_view(r@) == msgs_view(messages@).filter(|m: MessageV| keeps_message(m)),
        forall|i: int| 0 <= i < r@.len() ==> keeps_message(#[trigger] msgs_view(r@)[i]),
{
    let mut out: Vec<Message> = Vec::new();
    let mut i: usize = 0;
    proof {
        reveal(Seq::filter);
        assert(msgs_view(messages@.take(0)) =~= Seq::<MessageV>::empty());
        assert(msgs_view(out@) =~= msgs_view(messages@.take(0)).filter(
            |m: MessageV| keeps_message(m),
        ));
    }
    while i < messages.len()
        invariant
            i <= messages@.len(),
            msgs_view(out@) =~= msgs_view(messages@.take(i as int)).filter(
                |m: MessageV| keeps_message(m),
            ),
            forall|k: int| 0 <= k < out@.len() ==> keeps_message(#[trigger] msgs_view(out@)[k]),
        decreases messages@.len() - i,
    {
        let m = &messages[i];
        let keep = {
            let role_is_tool = crate::strkit::str_eq(m.role.as_str(), "tool");
            let no_content = m.content.is_none();
            let has_tool_calls = match &m.tool_calls {
                Some(ts) => ts.len() > 0,
                None => false,
            };
            !(role_is_tool || no_content || has_tool_calls)
        };
        proof {
            reveal(Seq::filter);
            assert(msgs_view(messages@.take(i + 1)).drop_last() =~= msgs_view(
                messages@.take(i as int),
            ));
            assert(msgs_view(messages@.take(i + 1)).last() == messages@[i as int]@);
        }
        if keep {
            let ghost out_before = out@;
            out.push(m.duplicate());
            proof {
                assert(msgs_view(out@) =~= msgs_view(out_before).push(messages@[i as int]@));
            }
        }
        i = i + 1;
    }
    proof {
        assert(messages@.take(messages@.len() as int) =~= messages@);
    }
    out
}

/// The message list handed to the final LLM before the tool context is
/// folded in: the agent's system prompt, if any, followed by the original
/// messages with the orchestration traces filtered out.
pub fn construct_llm_messages(system_prompt: &Option<String>, messages: &Vec<Message>) -> (r: Vec<
    Message,
>)
    ensures
        msgs_view(r@) == match *system_prompt {
            Some(p) => seq![system_message_v(p@)] + msgs_view(messages@).filter(
                |m: MessageV| keeps_message(m),
            ),
            None => msgs_view(messages@).filter(|m: MessageV| keeps_message(m)),
        },
        forall|i: int| 0 <= i < r@.len() ==> (#[trigger] msgs_view(r@)[i]).content is Some,
{
    let mut out: Vec<Message> = Vec::new();
    match system_prompt {
        Some(p) => {
            out.push(
                Message {
                    role: String::from_str("system"),
                    content: Some(p.clone()),
                    model: None,
                    tool_calls: None,
                    tool_call_id: None,
                },
            );
            proof {
                assert(msgs_view(out@) =~= seq![system_message_v(p@)]);
            }
        },
        None => {},
    }
    let mut filtered = filter_out_arch_messages(messages);
    let ghost out_before = out@;
    let ghost filtered_v = msgs_view(filtered@);
    out.append(&mut filtered);
    proof {
        assert(msgs_view(out@) =~= msgs_view(out_before) + filtered_v);
    }
    out
}

/// The view of a system message carrying the given prompt.
pub open spec fn system_message_v(prompt: Seq<char>) -> MessageV {
    MessageV {
        role: "system"@,
        content: Some(prompt),
        model: None,
        tool_calls: None,
        tool_call_id: None,
    }
}

/// Whether a message's role is `user`.
pub open spec fn is_user_message(m: MessageV) -> bool {
    m.role == "user"@
}

/// The index of the last `user`-role message, which drives orchestration;
/// `None` when the request holds no user message at all.
pub fn last_user_index(messages: &Vec<Message>) -> (r: Option<usize>)
    ensures
        match r {
            Some(j) => j < messages@.len() && is_user_message(messages@[j as int]@) && forall|
                k: int,
            |
                j < k < messages@.len() ==> !is_user_message(#[trigger] messages@[k]@),
            None => forall|k: int|
                0 <= k < messages@.len() ==> !is_user_message(#[trigger] messages@[k]@),
        },
{
    let mut j = messages.len();
    while j > 0
        invariant
            j <= messages@.len(),
            forall|k: int| j <= k < messages@.len() ==> !is_user_message(#[trigger] messages@[k]@),
        decreases j,
    {
        j = j - 1;
        if crate::strkit::str_eq(messages[j].role.as_str(), "user") {
            return Some(j);
        }
    }
    None
}

/// Whether the function-calling model's answer engages with the request:
/// it selected a tool, or it produced non-empty content.
pub fn check_intent_matched(resp: &ChatCompletionsResponse) -> (r: bool)
    ensures
        r == (resp@.choices.len() > 0 && {
            let m = resp@.choices[0].message;
            (m.tool_calls is Some && m.tool_calls.unwrap().len() > 0) || (m.content is Some
                && m.content.unwrap().len() > 0)
        }),
{
    if resp.choices.len() == 0 {
        return false;
    }
    let m = &resp.choices[0].message;
    let has_tool_calls = match &m.tool_calls {
        Some(ts) => ts.len() > 0,
        None => false,
    };
    let has_content = match &m.content {
        Some(c) => !c.as_str().is_empty(),
        None => false,
    };
    has_tool_calls || has_content
}

} // verus!
