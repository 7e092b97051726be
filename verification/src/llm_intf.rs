//! The conversation context that is exchanged with the language model: the
//! ordered history of role-tagged turns, the request parameters, and what
//! becomes of the history when a message is sent and a reply comes back.
//!
//! No request is made here. `send_message` says whether one is due, the
//! caller makes it with the history as it then stands, and `receive_reply`
//! takes what came of it.

use vstd::prelude::*;
use crate::text::{decimal, push_decimal, same_text};

verus! {

/// Where requests go unless the caller says otherwise.
pub const DEFAULT_ENDPOINT: &'static str = "https://api.deepseek.com/chat/completions";

/// The turn that primes every conversation.
pub const SYSTEM_PROMPT: &'static str =
    "接下来的请求来自一个语音转文字服务，请小心中间可能有一些字词被识别成同音的字词。请不要使用列表，回答保持一个段落。";

/// What stands in for a reply when the service returned no choice.
pub const NO_CHOICES: &'static str = "No response choices returned from API";

/// Largest reply, in tokens, that a new helper asks for.
pub const DEFAULT_MAX_TOKENS: u32 = 2048;

/// Sampling temperature and nucleus mass of a new helper, in thousandths.
pub const DEFAULT_SAMPLING: u32 = 1000;

/// Enum representing different roles in a chat conversation
#[derive(Debug, Clone, Copy, PartialEq, Eq, Structural)]
pub enum ChatRole {
    System,
    User,
    Assistant,
}

/// The name under which a role goes over the wire.
pub open spec fn role_name(role: ChatRole) -> Seq<char> {
    match role {
        ChatRole::System => "system"@,
        ChatRole::User => "user"@,
        ChatRole::Assistant => "assistant"@,
    }
}

impl ChatRole {
    /// The name under which the role goes over the wire.
    pub fn as_str(&self) -> (r: &'static str)
        ensures
            r@ == role_name(*self),
    {
        match self {
            ChatRole::System => "system",
            ChatRole::User => "user",
            ChatRole::Assistant => "assistant",
        }
    }
}

/// Structure representing a chat message
#[derive(Debug, Clone, PartialEq, Eq)]
pub struct ChatMessage {
    pub role: String,
    pub content: String,
}

/// A turn of the conversation as plain text.
pub struct TurnModel {
    pub role: Seq<char>,
    pub content: Seq<char>,
}

impl View for ChatMessage {
    type V = TurnModel;

    open spec fn view(&self) -> TurnModel {
        TurnModel { role: self.role@, content: self.content@ }
    }
}

/// The turns of a history, in order.
pub open spec fn turns(history: Seq<ChatMessage>) -> Seq<TurnModel> {
    Seq::new(history.len(), |i: int| history[i]@)
}

/// Whether a turn was spoken by the system.
pub open spec fn is_system(t: TurnModel) -> bool {
    t.role == role_name(ChatRole::System)
}

/// The system turns of a history, in their order.
pub open spec fn system_turns(h: Seq<TurnModel>) -> Seq<TurnModel> {
    h.filter(|t: TurnModel| is_system(t))
}

/// How many turns at the head of a history are system turns: the turns that
/// prime the conversation.
pub open spec fn priming_len(h: Seq<TurnModel>) -> nat
    decreases h.len(),
{
    if h.len() == 0 || !is_system(h[0]) {
        0
    } else {
        1 + priming_len(h.drop_first())
    }
}

/// The turn that primes a conversation.
pub open spec fn priming_turn() -> TurnModel {
    TurnModel { role: role_name(ChatRole::System), content: SYSTEM_PROMPT@ }
}

/// A history after a restart: cut back to the turns that prime it, or primed
/// afresh where it had none.
pub open spec fn restarted(h: Seq<TurnModel>) -> Seq<TurnModel> {
    if priming_len(h) == 0 {
        seq![priming_turn()]
    } else {
        h.take(priming_len(h) as int)
    }
}

/// How a history entry reads in a listing.
pub open spec fn listing_line(t: TurnModel) -> Seq<char> {
    "["@ + t.role + "]: "@ + t.content
}

/// What the caller is handed for an exchange, given what came of the request.
pub open spec fn reply_text(outcome: Result<Seq<TurnModel>, Seq<char>>) -> Seq<char> {
    match outcome {
        Ok(choices) => if choices.len() > 0 {
            choices[0].content
        } else {
            NO_CHOICES@
        },
        Err(detail) => "Error: "@ + detail,
    }
}

/// The history after an exchange: the first choice is recorded as a turn,
/// anything else leaves the history as it was.
pub open spec fn history_after_reply(
    h: Seq<TurnModel>,
    outcome: Result<Seq<TurnModel>, Seq<char>>,
) -> Seq<TurnModel> {
    match outcome {
        Ok(choices) => if choices.len() > 0 {
            h.push(choices[0])
        } else {
            h
        },
        Err(_) => h,
    }
}

/// A header of a request.
#[derive(Debug, Clone, PartialEq, Eq)]
pub struct Header {
    pub name: String,
    pub value: String,
}

/// A header as plain text: its name and its value.
pub open spec fn header_model(h: Header) -> (Seq<char>, Seq<char>) {
    (h.name@, h.value@)
}

/// The headers of a request with a payload of `payload_len` bytes, sent by
/// the bearer of `token`.
pub open spec fn request_headers_spec(token: Seq<char>, payload_len: nat) -> Seq<
    (Seq<char>, Seq<char>),
> {
    seq![
        ("Content-Type"@, "application/json"@),
        ("Accept"@, "application/json"@),
        ("Authorization"@, "Bearer "@ + token),
        ("Content-Length"@, decimal(payload_len)),
    ]
}

/// What is wrong with an answer of the given status, if anything is: every
/// status but 200 is a failure.
pub open spec fn status_failure_spec(status: u16) -> Option<Seq<char>> {
    if status == 200 {
        None
    } else {
        Some("HTTP request failed with status: "@ + decimal(status as nat))
    }
}

/// The outcome of a request as plain text.
pub open spec fn outcome_model(outcome: Result<Vec<ChatMessage>, String>) -> Result<
    Seq<TurnModel>,
    Seq<char>,
> {
    match outcome {
        Ok(choices) => Ok(turns(choices@)),
        Err(detail) => Err(detail@),
    }
}

/// Main structure for interacting with the language model
#[derive(Debug, Clone, PartialEq, Eq)]
pub struct LlmHelper {
    /// API endpoint of the service
    pub api_endpoint: String,
    /// API token for authentication
    pub api_token: String,
    /// Model to use for generating responses
    pub model_name: String,
    /// Chat history
    pub message_history: Vec<ChatMessage>,
    /// Maximum number of tokens to generate
    pub max_tokens: u32,
    /// Sampling temperature, in thousandths
    pub temperature: u32,
    /// Nucleus sampling mass, in thousandths
    pub top_p: u32,
}

impl LlmHelper {
    /// The history as plain text.
    pub open spec fn history(&self) -> Seq<TurnModel> {
        turns(self.message_history@)
    }

    /// Everything but the history is the same in `self` and `other`.
    pub open spec fn same_settings(&self, other: &LlmHelper) -> bool {
        &&& self.api_endpoint@ == other.api_endpoint@
        &&& self.api_token@ == other.api_token@
        &&& self.model_name@ == other.model_name@
        &&& self.max_tokens == other.max_tokens
        &&& self.temperature == other.temperature
        &&& self.top_p == other.top_p
    }

    /// Create a new instance of LlmHelper. Its history holds the priming turn
    /// and nothing else.
    pub fn new(api_token: &str, model_name: &str) -> (helper: LlmHelper)
        ensures
            helper.api_endpoint@ == DEFAULT_ENDPOINT@,
            helper.api_token@ == api_token@,
            helper.model_name@ == model_name@,
            helper.history() == seq![priming_turn()],
            helper.max_tokens == DEFAULT_MAX_TOKENS,
            helper.temperature == DEFAULT_SAMPLING,
            helper.top_p == DEFAULT_SAMPLING,
    {
        let mut message_history: Vec<ChatMessage> = Vec::new();
        message_history.push(
            ChatMessage {
                role: String::from_str(ChatRole::System.as_str()),
                content: String::from_str(SYSTEM_PROMPT),
            },
        );
        let helper = LlmHelper {
            api_endpoint: String::from_str(DEFAULT_ENDPOINT),
            api_token: String::from_str(api_token),
            model_name: String::from_str(model_name),
            message_history,
            max_tokens: DEFAULT_MAX_TOKENS,
            temperature: DEFAULT_SAMPLING,
            top_p: DEFAULT_SAMPLING,
        };
        assert(helper.history() =~= seq![priming_turn()]);
        helper
    }

    /// Get a listing of the message history, one line per turn
    pub fn get_history(&self) -> (lines: Vec<String>)
        ensures
            lines@.len() == self.history().len(),
            forall|i: int|
                0 <= i < lines@.len() ==> (#[trigger] lines@[i])@ == listing_line(self.history()[i]),
    {
        let mut lines: Vec<String> = Vec::new();
        let mut i: usize = 0;
        while i < self.message_history.len()
            invariant
                i <= self.message_history.len(),
                lines@.len() == i,
                forall|k: int|
                    0 <= k < i ==> (#[trigger] lines@[k])@ == listing_line(self.history()[k]),
            decreases self.message_history.len() - i,
        {
            let mut line = String::from_str("[");
            line.append(self.message_history[i].role.as_str());
            line.append("]: ");
            line.append(self.message_history[i].content.as_str());
            lines.push(line);
            i += 1;
        }
        lines
    }

    /// Clear the message history, keeping only the system messages
    pub fn clear_history(&mut self)
        ensures
            final(self).history() == system_turns(old(self).history()),
            final(self).same_settings(old(self)),
    {
        let mut kept: Vec<ChatMessage> = Vec::new();
        let mut i: usize = 0;
        proof {
            reveal(Seq::filter);
            assert(self.history().take(0) =~= Seq::<TurnModel>::empty());
        }
        while i < self.message_history.len()
            invariant
                i <= self.message_history.len(),
                turns(kept@) == system_turns(self.history().take(i as int)),
            decreases self.message_history.len() - i,
        {
            let is_sys = same_text(self.message_history[i].role.as_str(), ChatRole::System.as_str());
            proof {
                reveal(Seq::filter);
                let next = self.history().take(i + 1);
                assert(next.drop_last() =~= self.history().take(i as int));
                assert(next.last() == self.history()[i as int]);
            }
            if is_sys {
                let copy = ChatMessage {
                    role: self.message_history[i].role.clone(),
                    content: self.message_history[i].content.clone(),
                };
                kept.push(copy);
                assert(turns(kept@) =~= system_turns(self.history().take(i as int)).push(
                    self.history()[i as int],
                ));
            }
            i += 1;
        }
        assert(self.history().take(i as int) =~= self.history());
        self.message_history = kept;
    }

    /// Configure parameters for the requests. A parameter that is not given
    /// keeps its value.
    pub fn configure(
        &mut self,
        max_tokens: Option<u32>,
        temperature: Option<u32>,
        top_p: Option<u32>,
    )
        ensures
            final(self).max_tokens == (match max_tokens {
                Some(v) => v,
                None => old(self).max_tokens,
            }),
            final(self).temperature == (match temperature {
                Some(v) => v,
                None => old(self).temperature,
            }),
            final(self).top_p == (match top_p {
                Some(v) => v,
                None => old(self).top_p,
            }),
            final(self).history() == old(self).history(),
            final(self).api_endpoint@ == old(self).api_endpoint@,
            final(self).api_token@ == old(self).api_token@,
            final(self).model_name@ == old(self).model_name@,
    {
        if let Some(tokens) = max_tokens {
            self.max_tokens = tokens;
        }
        if let Some(temp) = temperature {
            self.temperature = temp;
        }
        if let Some(p) = top_p {
            self.top_p = p;
        }
    }

    /// The headers of a request whose payload takes `payload_len` bytes.
    pub fn request_headers(&self, payload_len: usize) -> (headers: Vec<Header>)
        ensures
            headers@.len() == 4,
            forall|i: int|
                0 <= i < 4 ==> header_model(#[trigger] headers@[i]) == request_headers_spec(
                    self.api_token@,
                    payload_len as nat,
                )[i],
    {
        let mut bearer = String::from_str("Bearer ");
        bearer.append(self.api_token.as_str());
        let mut length = String::new();
        push_decimal(&mut length, payload_len as u64);
        assert(length@ =~= decimal(payload_len as nat));
        let mut headers: Vec<Header> = Vec::new();
        headers.push(
            Header {
                name: String::from_str("Content-Type"),
                value: String::from_str("application/json"),
            },
        );
        headers.push(
            Header { name: String::from_str("Accept"), value: String::from_str("application/json") },
        );
        headers.push(Header { name: String::from_str("Authorization"), value: bearer });
        headers.push(Header { name: String::from_str("Content-Length"), value: length });
        headers
    }

    /// Records a message as the next turn and says whether a request is due:
    /// one is for every role but the system's.
    pub fn send_message(&mut self, text: String, role: ChatRole) -> (request: bool)
        ensures
            final(self).history() == old(self).history().push(
                TurnModel { role: role_name(role), content: text@ },
            ),
            final(self).same_settings(old(self)),
            request == (role != ChatRole::System),
    {
        let message = ChatMessage { role: String::from_str(role.as_str()), content: text };
        self.message_history.push(message);
        assert(self.history() =~= old(self).history().push(
            TurnModel { role: role_name(role), content: text@ },
        ));
        match role {
            ChatRole::System => false,
            _ => true,
        }
    }

    /// Takes what came of the request. The first choice becomes a turn of the
    /// history and its content is handed back; without a choice the history
    /// stays and a fixed notice is handed back; a failure leaves the history
    /// alone and is handed back as text that begins with `Error: `.
    pub fn receive_reply(&mut self, outcome: Result<Vec<ChatMessage>, String>) -> (reply: String)
        ensures
            reply@ == reply_text(outcome_model(outcome)),
            final(self).history() == history_after_reply(
                old(self).history(),
                outcome_model(outcome),
            ),
            final(self).same_settings(old(self)),
    {
        match outcome {
            Ok(choices) => {
                let mut choices = choices;
                if choices.len() > 0 {
                    let first = choices.remove(0);
                    let reply = first.content.clone();
                    self.message_history.push(first);
                    assert(self.history() =~= old(self).history().push(first@));
                    reply
                } else {
                    String::from_str(NO_CHOICES)
                }
            },
            Err(detail) => {
                let mut reply = String::from_str("Error: ");
                reply.append(detail.as_str());
                reply
            },
        }
    }

    /// Starts the conversation over: the history is cut back to the turns that
    /// prime it, and primed afresh where it had none.
    pub fn restart(&mut self)
        ensures
            final(self).history() == restarted(old(self).history()),
            final(self).same_settings(old(self)),
    {
        let mut k: usize = 0;
        while k < self.message_history.len() && same_text(
            self.message_history[k].role.as_str(),
            ChatRole::System.as_str(),
        )
            invariant
                k <= self.message_history.len(),
                self.history() == old(self).history(),
                self.same_settings(old(self)),
                forall|j: int| 0 <= j < k ==> is_system(#[trigger] self.history()[j]),
            decreases self.message_history.len() - k,
        {
            k += 1;
        }
        proof {
            lemma_priming_len(self.history(), k as nat);
        }
        if k == 0 {
            self.message_history.clear();
            self.message_history.push(
                ChatMessage {
                    role: String::from_str(ChatRole::System.as_str()),
                    content: String::from_str(SYSTEM_PROMPT),
                },
            );
            assert(self.history() =~= seq![priming_turn()]);
        } else {
            self.message_history.truncate(k);
            assert(self.history() =~= old(self).history().take(k as int));
        }
    }
}

/// The priming turns are the longest run of system turns at the head.
pub proof fn lemma_priming_len(h: Seq<TurnModel>, k: nat)
    requires
        k <= h.len(),
        forall|j: int| 0 <= j < k ==> is_system(#[trigger] h[j]),
        k == h.len() || !is_system(h[k as int]),
    ensures
        priming_len(h) == k,
    decreases h.len(),
{
    if k > 0 {
        let rest = h.drop_first();
        assert forall|j: int| 0 <= j < k - 1 implies is_system(#[trigger] rest[j]) by {
            assert(rest[j] == h[j + 1]);
        }
        lemma_priming_len(rest, (k - 1) as nat);
    }
}

/// The priming turns are system turns, as many as there are at the head of
/// the history, and the turn after them, if there is one, is not.
pub proof fn lemma_priming_turns(h: Seq<TurnModel>)
    ensures
        priming_len(h) <= h.len(),
        forall|j: int| 0 <= j < priming_len(h) ==> is_system(#[trigger] h[j]),
        priming_len(h) == h.len() || !is_system(h[priming_len(h) as int]),
    decreases h.len(),
{
    if h.len() > 0 && is_system(h[0]) {
        let rest = h.drop_first();
        lemma_priming_turns(rest);
        assert forall|j: int| 0 <= j < priming_len(h) implies is_system(#[trigger] h[j]) by {
            if j > 0 {
                assert(h[j] == rest[j - 1]);
            }
        }
        if priming_len(h) < h.len() {
            assert(h[priming_len(h) as int] == rest[priming_len(rest) as int]);
        }
    }
}

/// After a restart the context holds its priming turns and nothing else: its
/// length is the number of priming turns it had, or one where it had none.
pub proof fn law_restart_leaves_priming(h: Seq<TurnModel>)
    ensures
        restarted(h).len() == (if priming_len(h) == 0 {
            1
        } else {
            priming_len(h)
        }),
        priming_len(restarted(h)) == restarted(h).len(),
        forall|j: int| 0 <= j < restarted(h).len() ==> is_system(#[trigger] restarted(h)[j]),
{
    lemma_priming_turns(h);
    let r = restarted(h);
    assert forall|j: int| 0 <= j < r.len() implies is_system(#[trigger] r[j]) by {
        if priming_len(h) > 0 {
            assert(r[j] == h[j]);
        }
    }
    lemma_priming_len(r, r.len());
}

/// Restarting twice in succession leaves the context as restarting once does.
pub proof fn law_restart_idempotent(h: Seq<TurnModel>)
    ensures
        restarted(restarted(h)) == restarted(h),
{
    law_restart_leaves_priming(h);
    let r = restarted(h);
    assert(r.take(r.len() as int) =~= r);
}

/// What was said after the priming turns has no influence on the restarted
/// context, however long the conversation was.
pub proof fn law_restart_forgets(h: Seq<TurnModel>, said: Seq<TurnModel>)
    requires
        priming_len(h) == h.len(),
        said.len() == 0 || !is_system(said[0]),
    ensures
        restarted(h + said) == restarted(h),
{
    lemma_priming_turns(h);
    let all = h + said;
    assert forall|j: int| 0 <= j < h.len() implies is_system(#[trigger] all[j]) by {
        assert(all[j] == h[j]);
    }
    if said.len() > 0 {
        assert(all[h.len() as int] == said[0]);
    }
    lemma_priming_len(all, h.len());
    assert(all.take(h.len() as int) =~= h.take(h.len() as int));
}

/// What is wrong with an answer of the given status, if anything is.
pub fn status_failure(status: u16) -> (failure: Option<String>)
    ensures
        match status_failure_spec(status) {
            Some(text) => failure matches Some(f) && f@ == text,
            None => failure is None,
        },
{
    if status == 200 {
        None
    } else {
        let mut text = String::from_str("HTTP request failed with status: ");
        push_decimal(&mut text, status as u64);
        Some(text)
    }
}

} // verus!
