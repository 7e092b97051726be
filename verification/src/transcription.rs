//! Messages of the control channel and the decisions of the conversation
//! worker that consumes them.

use vstd::prelude::*;
use crate::llm_intf::{
    history_after_reply, outcome_model, reply_text, restarted, role_name, ChatMessage, ChatRole,
    LlmHelper, TurnModel,
};
use crate::http_client::{read_response, response_result};
use crate::session::EXIT_PHRASE;
use crate::text::{chars_of, same_text, string_of};
use crate::tts::{TtsConfig, TtsEngine};

verus! {

/// What the worker says when it starts.
pub const GREETING: &'static str = "你好，乐鑫";

/// What the worker says when the conversation ends.
pub const GOODBYE: &'static str = "再见";

/// The model that the worker converses with.
pub const MODEL_NAME: &'static str = "deepseek-chat";

/// What the session state machine asks of the conversation worker. Messages
/// are handled strictly in the order in which they were sent.
#[derive(Debug, Clone, PartialEq, Eq)]
pub enum TranscriptionMessage {
    /// Transcribe the finished recording at `path`.
    TranscribeFile { path: String },
    /// Forget the conversation so far.
    RestartSession,
    /// Leave the receive loop.
    Shutdown,
}

/// A control message with its path as a sequence of characters.
pub enum MessageModel {
    TranscribeFile { path: Seq<char> },
    RestartSession,
    Shutdown,
}

impl View for TranscriptionMessage {
    type V = MessageModel;

    open spec fn view(&self) -> MessageModel {
        match self {
            TranscriptionMessage::TranscribeFile { path } => MessageModel::TranscribeFile {
                path: path@,
            },
            TranscriptionMessage::RestartSession => MessageModel::RestartSession,
            TranscriptionMessage::Shutdown => MessageModel::Shutdown,
        }
    }
}

/// What the worker's caller is to do, in the order given.
#[derive(Debug, Clone, PartialEq, Eq)]
pub enum WorkerAction {
    /// Have the recording at `path` transcribed and report the outcome.
    Transcribe { path: String },
    /// Put `text` on the response channel.
    Respond { text: String },
    /// Ask the language model for a reply to the context as it stands, and
    /// report the outcome.
    RequestReply,
    /// Play `text` through speech synthesis, chunk by chunk.
    Speak { text: String },
    /// Leave the receive loop.
    Stop,
}

pub enum WorkerActionModel {
    Transcribe { path: Seq<char> },
    Respond { text: Seq<char> },
    RequestReply,
    Speak { text: Seq<char> },
    Stop,
}

impl View for WorkerAction {
    type V = WorkerActionModel;

    open spec fn view(&self) -> WorkerActionModel {
        match self {
            WorkerAction::Transcribe { path } => WorkerActionModel::Transcribe { path: path@ },
            WorkerAction::Respond { text } => WorkerActionModel::Respond { text: text@ },
            WorkerAction::RequestReply => WorkerActionModel::RequestReply,
            WorkerAction::Speak { text } => WorkerActionModel::Speak { text: text@ },
            WorkerAction::Stop => WorkerActionModel::Stop,
        }
    }
}

/// The models of a list of worker actions, in the same order.
pub open spec fn worker_models(actions: Seq<WorkerAction>) -> Seq<WorkerActionModel> {
    Seq::new(actions.len(), |i: int| actions[i]@)
}

/// What a control message does to the conversation and what it asks for.
pub open spec fn message_effect(h: Seq<TurnModel>, message: MessageModel) -> (
    Seq<TurnModel>,
    Seq<WorkerActionModel>,
) {
    match message {
        MessageModel::TranscribeFile { path } => (h, seq![WorkerActionModel::Transcribe { path }]),
        MessageModel::RestartSession => (restarted(h), seq![]),
        MessageModel::Shutdown => (h, seq![WorkerActionModel::Stop]),
    }
}

/// What the outcome of a transcription does to the conversation and what it
/// asks for. A transcript is forwarded first of all. The exit phrase is then
/// answered with the goodbye and goes no further; any other transcript
/// becomes a user turn for which a reply is requested. A failure is
/// forwarded as an error text.
pub open spec fn transcript_effect(h: Seq<TurnModel>, outcome: Result<Seq<char>, Seq<char>>) -> (
    Seq<TurnModel>,
    Seq<WorkerActionModel>,
) {
    match outcome {
        Ok(transcript) => if transcript == EXIT_PHRASE@ {
            (
                h,
                seq![
                    WorkerActionModel::Respond { text: transcript },
                    WorkerActionModel::Speak { text: GOODBYE@ },
                ],
            )
        } else {
            (
                h.push(TurnModel { role: role_name(ChatRole::User), content: transcript }),
                seq![
                    WorkerActionModel::Respond { text: transcript },
                    WorkerActionModel::RequestReply,
                ],
            )
        },
        Err(detail) => (h, seq![WorkerActionModel::Respond { text: "Error: "@ + detail }]),
    }
}

/// What the outcome of a request to the language model does to the
/// conversation and what it asks for: a reply is recorded and spoken, a
/// failure leaves everything as it was.
pub open spec fn reply_effect(
    h: Seq<TurnModel>,
    outcome: Result<Seq<TurnModel>, Seq<char>>,
) -> (Seq<TurnModel>, Seq<WorkerActionModel>) {
    (
        history_after_reply(h, outcome),
        match outcome {
            Ok(_) => seq![WorkerActionModel::Speak { text: reply_text(outcome) }],
            Err(_) => seq![],
        },
    )
}

/// The outcome of a transcription as plain text.
pub open spec fn transcript_model(outcome: Result<String, String>) -> Result<Seq<char>, Seq<char>> {
    match outcome {
        Ok(t) => Ok(t@),
        Err(e) => Err(e@),
    }
}

/// `s` without the quote characters at its end.
pub open spec fn unquote_end(s: Seq<char>) -> Seq<char>
    decreases s.len(),
{
    if s.len() > 0 && s.last() == '"' {
        unquote_end(s.drop_last())
    } else {
        s
    }
}

/// `s` without the quote characters at its head.
pub open spec fn unquote_start(s: Seq<char>) -> Seq<char>
    decreases s.len(),
{
    if s.len() > 0 && s[0] == '"' {
        unquote_start(s.drop_first())
    } else {
        s
    }
}

/// The transcript in a service's answer: the answer without the quote
/// characters that surround it.
pub open spec fn unquoted(s: Seq<char>) -> Seq<char> {
    unquote_start(unquote_end(s))
}

proof fn lemma_unquote_end(s: Seq<char>, b: int)
    requires
        0 <= b <= s.len(),
        forall|i: int| b <= i < s.len() ==> #[trigger] s[i] == '"',
        b == 0 || s[b - 1] != '"',
    ensures
        unquote_end(s) == s.take(b),
    decreases s.len(),
{
    if b < s.len() {
        let rest = s.drop_last();
        assert forall|i: int| b <= i < rest.len() implies #[trigger] rest[i] == '"' by {
            assert(rest[i] == s[i]);
        }
        lemma_unquote_end(rest, b);
        assert(rest.take(b) =~= s.take(b));
    } else {
        assert(s.take(b) =~= s);
    }
}

proof fn lemma_unquote_start(s: Seq<char>, a: int)
    requires
        0 <= a <= s.len(),
        forall|i: int| 0 <= i < a ==> #[trigger] s[i] == '"',
        a == s.len() || s[a] != '"',
    ensures
        unquote_start(s) == s.skip(a),
    decreases s.len(),
{
    if a > 0 {
        let rest = s.drop_first();
        assert forall|i: int| 0 <= i < a - 1 implies #[trigger] rest[i] == '"' by {
            assert(rest[i] == s[i + 1]);
        }
        lemma_unquote_start(rest, a - 1);
        assert(rest.skip(a - 1) =~= s.skip(a));
    } else {
        assert(s.skip(0) =~= s);
    }
}

/// The transcript in a transcription service's answer.
pub fn unquote(answer: &str) -> (transcript: String)
    ensures
        transcript@ == unquoted(answer@),
{
    let chars = chars_of(answer);
    let mut b: usize = chars.len();
    while b > 0 && chars[b - 1] == '"'
        invariant
            b <= chars.len(),
            forall|i: int| b <= i < chars.len() ==> #[trigger] chars@[i] == '"',
        decreases b,
    {
        b -= 1;
    }
    let mut a: usize = 0;
    while a < b && chars[a] == '"'
        invariant
            a <= b <= chars.len(),
            forall|i: int| 0 <= i < a ==> #[trigger] chars@[i] == '"',
        decreases b - a,
    {
        a += 1;
    }
    proof {
        lemma_unquote_end(chars@, b as int);
        let head = chars@.take(b as int);
        assert forall|i: int| 0 <= i < a implies #[trigger] head[i] == '"' by {
            assert(head[i] == chars@[i]);
        }
        if a < b {
            assert(head[a as int] == chars@[a as int]);
        }
        lemma_unquote_start(head, a as int);
    }
    let mut body: Vec<char> = Vec::new();
    let mut i: usize = a;
    while i < b
        invariant
            a <= i <= b <= chars.len(),
            body@ == chars@.subrange(a as int, i as int),
        decreases b - i,
    {
        body.push(chars[i]);
        i += 1;
        assert(chars@.subrange(a as int, i as int) =~= chars@.subrange(a as int, i - 1).push(
            chars@[i - 1],
        ));
    }
    assert(body@ =~= chars@.take(b as int).skip(a as int));
    string_of(&body)
}

/// What came of a request to the transcription service: the transcript, which
/// is the answer's body without the quote characters around it, where the
/// status tells success; an error text with the status and the body
/// otherwise.
pub open spec fn transcription_result(status: u16, body: Seq<char>) -> Result<
    Seq<char>,
    Seq<char>,
> {
    match response_result(status, body) {
        Ok(answer) => Ok(unquoted(answer)),
        Err(text) => Err(text),
    }
}

/// What came of a request to the transcription service.
pub fn transcription_outcome(status: u16, body: String) -> (outcome: Result<String, String>)
    ensures
        transcript_model(outcome) == transcription_result(status, body@),
{
    match read_response(status, body) {
        Ok(answer) => Ok(unquote(answer.as_str())),
        Err(text) => Err(text),
    }
}

/// The conversation worker's state: the conversation with the language model
/// and the configuration of speech playback. Both are the worker's own: they
/// change by what the worker handles and in no other way.
#[derive(Debug, Clone, PartialEq, Eq)]
pub struct ConversationWorker {
    llm: LlmHelper,
    tts: TtsEngine,
}

impl ConversationWorker {
    /// The conversation with the language model.
    pub closed spec fn context(&self) -> LlmHelper {
        self.llm
    }

    /// The engine that plans speech playback.
    pub closed spec fn voice(&self) -> TtsEngine {
        self.tts
    }

    /// A worker at the start of a conversation. It converses with the model
    /// [`MODEL_NAME`], asks for short replies and speaks in small chunks.
    pub fn new(api_token: &str) -> (worker: ConversationWorker)
        ensures
            worker.context().history() == seq![crate::llm_intf::priming_turn()],
            worker.context().api_token@ == api_token@,
            worker.context().model_name@ == MODEL_NAME@,
            worker.context().max_tokens == 512,
            worker.context().temperature == 700,
            worker.context().top_p == 900,
            worker.voice().config == (TtsConfig {
                max_chunk_chars: 30,
                chunk_delay_ms: 100,
                speed: 3,
            }),
    {
        let mut llm = LlmHelper::new(api_token, MODEL_NAME);
        llm.configure(Some(512), Some(700), Some(900));
        let tts = TtsEngine::new_with_config(
            TtsConfig { max_chunk_chars: 30, chunk_delay_ms: 100, speed: 3 },
        );
        ConversationWorker { llm, tts }
    }

    /// A worker that takes up the given conversation and speaks through the
    /// given engine.
    pub fn resume(llm: LlmHelper, tts: TtsEngine) -> (worker: ConversationWorker)
        ensures
            worker.context() == llm,
            worker.voice() == tts,
    {
        ConversationWorker { llm, tts }
    }

    /// The conversation with the language model, to read.
    pub fn conversation(&self) -> (llm: &LlmHelper)
        ensures
            *llm == self.context(),
    {
        &self.llm
    }

    /// The engine that plans speech playback, to read.
    pub fn speech(&self) -> (tts: &TtsEngine)
        ensures
            *tts == self.voice(),
    {
        &self.tts
    }

    /// What the worker does first: it speaks the greeting.
    pub fn start(&self) -> (actions: Vec<WorkerAction>)
        ensures
            worker_models(actions@) == seq![WorkerActionModel::Speak { text: GREETING@ }],
    {
        let mut actions: Vec<WorkerAction> = Vec::new();
        actions.push(WorkerAction::Speak { text: String::from_str(GREETING) });
        assert(worker_models(actions@) =~= seq![WorkerActionModel::Speak { text: GREETING@ }]);
        actions
    }

    /// Handles a message from the control channel.
    pub fn on_message(&mut self, message: TranscriptionMessage) -> (actions: Vec<WorkerAction>)
        ensures
            (final(self).context().history(), worker_models(actions@)) == message_effect(
                old(self).context().history(),
                message@,
            ),
            final(self).context().same_settings(&old(self).context()),
            final(self).voice() == old(self).voice(),
    {
        let mut actions: Vec<WorkerAction> = Vec::new();
        match message {
            TranscriptionMessage::TranscribeFile { path } => {
                actions.push(WorkerAction::Transcribe { path });
            },
            TranscriptionMessage::RestartSession => {
                self.llm.restart();
            },
            TranscriptionMessage::Shutdown => {
                actions.push(WorkerAction::Stop);
            },
        }
        assert(worker_models(actions@) =~= message_effect(old(self).context().history(), message@).1);
        actions
    }

    /// Handles the outcome of a transcription.
    pub fn on_transcript(&mut self, outcome: Result<String, String>) -> (actions: Vec<WorkerAction>)
        ensures
            (final(self).context().history(), worker_models(actions@)) == transcript_effect(
                old(self).context().history(),
                transcript_model(outcome),
            ),
            final(self).context().same_settings(&old(self).context()),
            final(self).voice() == old(self).voice(),
    {
        let mut actions: Vec<WorkerAction> = Vec::new();
        match outcome {
            Ok(transcript) => {
                actions.push(WorkerAction::Respond { text: transcript.clone() });
                if same_text(transcript.as_str(), EXIT_PHRASE) {
                    actions.push(WorkerAction::Speak { text: String::from_str(GOODBYE) });
                } else {
                    self.llm.send_message(transcript, ChatRole::User);
                    actions.push(WorkerAction::RequestReply);
                }
            },
            Err(detail) => {
                let mut text = String::from_str("Error: ");
                text.append(detail.as_str());
                actions.push(WorkerAction::Respond { text });
            },
        }
        assert(worker_models(actions@) =~= transcript_effect(
            old(self).context().history(),
            transcript_model(outcome),
        ).1);
        actions
    }

    /// Handles the outcome of a request to the language model.
    pub fn on_reply(&mut self, outcome: Result<Vec<ChatMessage>, String>) -> (actions: Vec<
        WorkerAction,
    >)
        ensures
            (final(self).context().history(), worker_models(actions@)) == reply_effect(
                old(self).context().history(),
                outcome_model(outcome),
            ),
            final(self).context().same_settings(&old(self).context()),
            final(self).voice() == old(self).voice(),
    {
        let mut actions: Vec<WorkerAction> = Vec::new();
        let failed = outcome.is_err();
        let reply = self.llm.receive_reply(outcome);
        if !failed {
            actions.push(WorkerAction::Speak { text: reply });
        }
        assert(worker_models(actions@) =~= reply_effect(
            old(self).context().history(),
            outcome_model(outcome),
        ).1);
        actions
    }
}

/// Restarting the session twice in succession leaves the conversation as
/// restarting it once does, and asks for nothing either time.
pub proof fn law_restart_session_idempotent(h: Seq<TurnModel>)
    ensures
        message_effect(message_effect(h, MessageModel::RestartSession).0, MessageModel::RestartSession)
            == message_effect(h, MessageModel::RestartSession),
{
    crate::llm_intf::law_restart_idempotent(h);
}

/// After a restart the conversation holds exactly its priming turns, however
/// long it was.
pub proof fn law_restart_session_length(h: Seq<TurnModel>)
    ensures
        message_effect(h, MessageModel::RestartSession).0.len() == (if crate::llm_intf::priming_len(h)
            == 0 {
            1
        } else {
            crate::llm_intf::priming_len(h)
        }),
        crate::llm_intf::priming_len(message_effect(h, MessageModel::RestartSession).0)
            == message_effect(h, MessageModel::RestartSession).0.len(),
{
    crate::llm_intf::law_restart_leaves_priming(h);
}

/// The exit phrase as a transcript is forwarded and answered with the
/// goodbye; the language model is not asked and the conversation stays as it
/// was.
pub proof fn law_exit_phrase_skips_model(h: Seq<TurnModel>)
    ensures
        transcript_effect(h, Ok(EXIT_PHRASE@)) == (
            h,
            seq![
                WorkerActionModel::Respond { text: EXIT_PHRASE@ },
                WorkerActionModel::Speak { text: GOODBYE@ },
            ],
        ),
{
}

/// Whatever comes of a transcription, the first thing the worker does is to
/// put a text on the response channel: the transcript, or an error text.
pub proof fn law_transcript_forwarded_first(h: Seq<TurnModel>, outcome: Result<Seq<char>, Seq<char>>)
    ensures
        transcript_effect(h, outcome).1.len() >= 1,
        transcript_effect(h, outcome).1[0] == (WorkerActionModel::Respond {
            text: match outcome {
                Ok(t) => t,
                Err(e) => "Error: "@ + e,
            },
        }),
{
}

} // verus!
