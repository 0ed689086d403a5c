//! Submitting input: the busy gate, slash commands, the placeholder that a
//! stream fills, throttled delivery of the stream's text, and finalisation.
use vstd::prelude::*;
use crate::attachments::{stored_body, stored_body_of, ChatAttachment};
use crate::errors::{sanitize_error, sanitized};
use crate::session::{
    appended, body_set, cleared, removed, row_of, transcript_lines, with_info, ChatSession,
    MessageKind, MessageView, Sender, SessionView,
};
use crate::text::{
    join_seq, lower_of, owned, push_str, starts_with_seq, str_is, str_starts_with, to_lower, trim,
    trim_seq,
};

verus! {

/// The two interchangeable backends.
#[derive(Clone, Copy, Debug, PartialEq, Eq, Structural)]
pub enum Provider {
    OpenAi,
    Gemini,
}

/// Models whose id starts with "gemini" go to Gemini, all others to OpenAI.
pub open spec fn provider_of(model_id: Seq<char>) -> Provider {
    if starts_with_seq(model_id, "gemini"@) {
        Provider::Gemini
    } else {
        Provider::OpenAi
    }
}

/// The provider that serves `model_id`.
pub fn provider_for(model_id: &str) -> (r: Provider)
    ensures
        r == provider_of(model_id@),
{
    if str_starts_with(model_id, "gemini") {
        Provider::Gemini
    } else {
        Provider::OpenAi
    }
}

/// The credential that the provider of `model_id` needs is set.
pub open spec fn key_present(model_id: Seq<char>, openai_key: Seq<char>, gemini_key: Seq<char>) -> bool {
    if provider_of(model_id) == Provider::Gemini {
        gemini_key.len() > 0
    } else {
        openai_key.len() > 0
    }
}

/// Whether the credential that the provider of `model_id` needs is set.
pub fn has_required_api_key(model_id: &str, openai_key: &str, gemini_key: &str) -> (r: bool)
    ensures
        r == key_present(model_id@, openai_key@, gemini_key@),
{
    match provider_for(model_id) {
        Provider::Gemini => !gemini_key.is_empty(),
        Provider::OpenAi => !openai_key.is_empty(),
    }
}

/// The name of the credential that the provider of `model_id` needs.
pub open spec fn key_name(model_id: Seq<char>) -> Seq<char> {
    if provider_of(model_id) == Provider::Gemini {
        "GEMINI_API_KEY"@
    } else {
        "OPENAI_API_KEY"@
    }
}

/// The note shown where that credential is missing.
pub open spec fn missing_key_note(model_id: Seq<char>) -> Seq<char> {
    "Set "@ + key_name(model_id) + " to enable replies."@
}

/// The slash commands.
#[derive(Clone, Copy, Debug, PartialEq, Eq, Structural)]
pub enum Command {
    Model,
    Mood,
    Clear,
    Copy,
    Help,
    Status,
    Debug,
    Unknown,
}

/// The command that a lowercased input names.
pub open spec fn command_of(s: Seq<char>) -> Command {
    if s == "/model"@ {
        Command::Model
    } else if s == "/mood"@ {
        Command::Mood
    } else if s == "/clear"@ {
        Command::Clear
    } else if s == "/copy"@ {
        Command::Copy
    } else if s == "/help"@ {
        Command::Help
    } else if s == "/status"@ {
        Command::Status
    } else if s == "/debug"@ {
        Command::Debug
    } else {
        Command::Unknown
    }
}

/// The command named by `input`, ignoring case.
pub fn parse_command(input: &str) -> (r: Command)
    ensures
        r == command_of(lower_of(input@)),
{
    let l = to_lower(input);
    command_of_lowered(l.as_str())
}

/// The command that an input already in lowercase names.
pub fn command_of_lowered(s: &str) -> (r: Command)
    ensures
        r == command_of(s@),
{
    if str_is(s, "/model") {
        Command::Model
    } else if str_is(s, "/mood") {
        Command::Mood
    } else if str_is(s, "/clear") {
        Command::Clear
    } else if str_is(s, "/copy") {
        Command::Copy
    } else if str_is(s, "/help") {
        Command::Help
    } else if str_is(s, "/status") {
        Command::Status
    } else if str_is(s, "/debug") {
        Command::Debug
    } else {
        Command::Unknown
    }
}

pub open spec fn help_text() -> Seq<char> {
    "**Commands**\n\n- `/model` Choose AI model\n- `/mood` Set conversation mood\n- `/clear` Clear chat history\n- `/copy` Copy conversation\n- `/help` Show this help\n- `/status` Show current settings\n- `/debug` Connection/client statistics"@
}

pub open spec fn set_word(b: bool) -> Seq<char> {
    if b {
        "Set"@
    } else {
        "Not set"@
    }
}

pub open spec fn provider_word(p: Provider) -> Seq<char> {
    if p == Provider::Gemini {
        "gemini"@
    } else {
        "openai"@
    }
}

/// The settings note of `/status`.
pub open spec fn status_text(v: SessionView) -> Seq<char> {
    "**Current Settings**\n\n- Model: `"@ + v.config.model_id + "`\n- Provider: "@ + provider_word(
        provider_of(v.config.model_id),
    ) + "\n- OpenAI Key: "@ + set_word(v.config.openai_api_key.len() > 0) + "\n- Gemini Key: "@
        + set_word(v.config.gemini_api_key.len() > 0)
}

pub open spec fn unknown_command_note(input: Seq<char>) -> Seq<char> {
    "Unknown command: "@ + input + "\nType /help for available commands."@
}

/// What the host still has to do after a submit.
pub enum SubmitOutcome {
    /// Nothing: the session was busy, or there was nothing to send.
    Ignored,
    /// Open the model picker.
    OpenModelPicker,
    /// Open the mood picker.
    OpenMoodPicker,
    /// Put this text on the clipboard.
    CopyText(String),
    /// Call `debug_report` with the state of the client cache.
    DebugReport,
    /// A command was handled in full.
    Handled,
    /// The user message was appended; no credential is set for its provider.
    MissingKey,
    /// The user message was appended; obtain a client for this request, then
    /// call `start_request` or `client_failed`.
    NeedsClient(PendingRequest),
}

/// A request waiting for its provider client.
pub struct PendingRequest {
    pub provider: Provider,
    pub credential: String,
    pub base_url: String,
    pub prompt: String,
    pub attachments: Vec<ChatAttachment>,
}

/// How the session answers a command given as `input` (trimmed) in state `v`.
pub open spec fn command_post(v: SessionView, input: Seq<char>, now: u64, w: SessionView, r: SubmitOutcome) -> bool {
    match command_of(lower_of(input)) {
        Command::Model => w == v && r is OpenModelPicker,
        Command::Mood => w == v && r is OpenMoodPicker,
        Command::Clear => w == with_info(cleared(v), "Chat cleared."@, now) && r is Handled,
        Command::Copy => w == v && (r matches SubmitOutcome::CopyText(t) && t@ == join_seq(
            transcript_lines(v.messages),
            "\n"@,
        )),
        Command::Help => w == with_info(v, help_text(), now) && r is Handled,
        Command::Status => w == with_info(v, status_text(v), now) && r is Handled,
        Command::Debug => w == v && r is DebugReport,
        Command::Unknown => w == with_info(v, unknown_command_note(input), now) && r is Handled,
    }
}

/// How the session answers a submit of `text` with `atts` in state `v`.
pub open spec fn submit_post(
    v: SessionView,
    text: Seq<char>,
    atts: Seq<ChatAttachment>,
    now: u64,
    w: SessionView,
    r: SubmitOutcome,
) -> bool {
    let input = trim_seq(text);
    if v.busy {
        w == v && r is Ignored
    } else if starts_with_seq(input, "/"@) {
        command_post(v, input, now, w, r)
    } else if input.len() == 0 && atts.len() == 0 {
        w == v && r is Ignored
    } else {
        let u = appended(v, Sender::User, stored_body_of(input, atts), MessageKind::Chat, now);
        if key_present(v.config.model_id, v.config.openai_api_key, v.config.gemini_api_key) {
            w == u && (r matches SubmitOutcome::NeedsClient(p) && p.provider == provider_of(
                v.config.model_id,
            ) && p.credential@ == (if p.provider == Provider::Gemini {
                v.config.gemini_api_key
            } else {
                v.config.openai_api_key
            }) && p.base_url@ == v.config.openai_base_url && p.prompt@ == input && p.attachments@
                == atts)
        } else {
            w == with_info(u, missing_key_note(v.config.model_id), now) && r is MissingKey
        }
    }
}

impl ChatSession {
    fn run_command(&mut self, input: &str, now: u64) -> (r: SubmitOutcome)
        requires
            old(self).wf(),
            old(self).has_room(2),
        ensures
            final(self).wf(),
            command_post(old(self)@, input@, now, final(self)@, r),
    {
        match parse_command(input) {
            Command::Model => SubmitOutcome::OpenModelPicker,
            Command::Mood => SubmitOutcome::OpenMoodPicker,
            Command::Clear => {
                self.reset_conversation();
                self.append_info("Chat cleared.", now);
                SubmitOutcome::Handled
            },
            Command::Copy => SubmitOutcome::CopyText(self.copy_all_text()),
            Command::Help => {
                self.append_info(
                    "**Commands**\n\n- `/model` Choose AI model\n- `/mood` Set conversation mood\n- `/clear` Clear chat history\n- `/copy` Copy conversation\n- `/help` Show this help\n- `/status` Show current settings\n- `/debug` Connection/client statistics",
                    now,
                );
                SubmitOutcome::Handled
            },
            Command::Status => {
                let mut t = String::new();
                push_str(&mut t, "**Current Settings**\n\n- Model: `");
                push_str(&mut t, self.config.model_id.as_str());
                push_str(&mut t, "`\n- Provider: ");
                match provider_for(self.config.model_id.as_str()) {
                    Provider::Gemini => push_str(&mut t, "gemini"),
                    Provider::OpenAi => push_str(&mut t, "openai"),
                }
                push_str(&mut t, "\n- OpenAI Key: ");
                if self.config.openai_api_key.as_str().is_empty() {
                    push_str(&mut t, "Not set");
                } else {
                    push_str(&mut t, "Set");
                }
                push_str(&mut t, "\n- Gemini Key: ");
                if self.config.gemini_api_key.as_str().is_empty() {
                    push_str(&mut t, "Not set");
                } else {
                    push_str(&mut t, "Set");
                }
                self.append_info(t.as_str(), now);
                SubmitOutcome::Handled
            },
            Command::Debug => SubmitOutcome::DebugReport,
            Command::Unknown => {
                let mut t = String::new();
                push_str(&mut t, "Unknown command: ");
                push_str(&mut t, input);
                push_str(&mut t, "\nType /help for available commands.");
                self.append_info(t.as_str(), now);
                SubmitOutcome::Handled
            },
        }
    }

    /// Submits `text` with `attachments`. Dropped while busy; a slash command is
    /// handled in place; otherwise the user message is appended and, where the
    /// provider's credential is set, a request is handed back to be started.
    pub fn submit(&mut self, text: &str, attachments: Vec<ChatAttachment>, now: u64) -> (r: SubmitOutcome)
        requires
            old(self).wf(),
            old(self).busy || old(self).has_room(2),
        ensures
            final(self).wf(),
            submit_post(old(self)@, text@, attachments@, now, final(self)@, r),
    {
        if self.busy {
            return SubmitOutcome::Ignored;
        }
        let input = trim(text);
        if str_starts_with(input.as_str(), "/") {
            return self.run_command(input.as_str(), now);
        }
        if input.as_str().is_empty() && attachments.len() == 0 {
            return SubmitOutcome::Ignored;
        }
        let body = stored_body(input.as_str(), &attachments);
        self.append_message(Sender::User, body, MessageKind::Chat, now);
        if !has_required_api_key(
            self.config.model_id.as_str(),
            self.config.openai_api_key.as_str(),
            self.config.gemini_api_key.as_str(),
        ) {
            let mut t = String::new();
            push_str(&mut t, "Set ");
            match provider_for(self.config.model_id.as_str()) {
                Provider::Gemini => push_str(&mut t, "GEMINI_API_KEY"),
                Provider::OpenAi => push_str(&mut t, "OPENAI_API_KEY"),
            }
            push_str(&mut t, " to enable replies.");
            self.append_info(t.as_str(), now);
            return SubmitOutcome::MissingKey;
        }
        let provider = provider_for(self.config.model_id.as_str());
        let credential = match provider {
            Provider::Gemini => self.config.gemini_api_key.clone(),
            Provider::OpenAi => self.config.openai_api_key.clone(),
        };
        SubmitOutcome::NeedsClient(
            PendingRequest {
                provider,
                credential,
                base_url: self.config.openai_base_url.clone(),
                prompt: input,
                attachments,
            },
        )
    }

    /// Submits `text` alone.
    pub fn submit_input(&mut self, text: &str, now: u64) -> (r: SubmitOutcome)
        requires
            old(self).wf(),
            old(self).busy || old(self).has_room(2),
        ensures
            final(self).wf(),
            submit_post(old(self)@, text@, Seq::empty(), now, final(self)@, r),
    {
        let r = self.submit(text, Vec::new(), now);
        r
    }
}

/// A prior turn as sent to a provider.
pub struct HistoryEntry {
    pub sender: Sender,
    pub body: String,
}

/// The chat messages of `msgs`, notes left out.
pub open spec fn chat_only(msgs: Seq<MessageView>) -> Seq<MessageView>
    decreases msgs.len(),
{
    if msgs.len() == 0 {
        Seq::empty()
    } else if msgs.last().kind == MessageKind::Chat {
        chat_only(msgs.drop_last()).push(msgs.last())
    } else {
        chat_only(msgs.drop_last())
    }
}

/// The history sent with a prompt: the chat messages but the last, which is
/// the prompt itself.
pub open spec fn history_of(msgs: Seq<MessageView>) -> Seq<MessageView> {
    let c = chat_only(msgs);
    if c.len() == 0 {
        c
    } else {
        c.drop_last()
    }
}

/// `h` carries the senders and bodies of `m`, in order.
pub open spec fn history_matches(h: Seq<HistoryEntry>, m: Seq<MessageView>) -> bool {
    &&& h.len() == m.len()
    &&& forall|i: int| 0 <= i < h.len() ==> #[trigger] h[i].sender == m[i].sender && h[i].body@
        == m[i].body
}

/// A request ready for its provider's streaming call.
pub struct ChatRequest {
    pub provider: Provider,
    pub model_id: String,
    pub system_prompt: String,
    pub history: Vec<HistoryEntry>,
    pub prompt: String,
    pub attachments: Vec<ChatAttachment>,
    /// The id of the placeholder that the reply fills.
    pub assistant_id: String,
}

/// `v` once a request has started at `now`: busy, an empty placeholder
/// appended, and the relay aimed at it.
pub open spec fn started(v: SessionView, now: u64) -> SessionView {
    let b = SessionView {
        busy: true,
        error: Seq::empty(),
        status: "Thinking..."@,
        last_request_at: Some(now),
        last_latency_ms: None,
        ..v
    };
    let a = appended(b, Sender::Assistant, Seq::empty(), MessageKind::Chat, now);
    SessionView {
        stream_target: a.messages.last().id,
        pending: Seq::empty(),
        last_flush_ms: now,
        ..a
    }
}

/// `v` once building the provider client failed with `err`.
pub open spec fn client_failure(v: SessionView, err: Seq<char>, now: u64) -> SessionView {
    with_info(SessionView { status: "Error"@, error: err, ..v }, "Error: "@ + err, now)
}

/// The least gap between two deliveries of streamed text, in milliseconds.
pub const FLUSH_INTERVAL_MS: u64 = 50;

/// `v` with its undelivered text `p` appended to the placeholder, if it is still there.
pub open spec fn delivered(v: SessionView, p: Seq<char>) -> SessionView {
    match row_of(v.messages, v.stream_target) {
        Some(i) => body_set(v, i, v.messages[i].body + p),
        None => v,
    }
}

/// `v` once the fragment `f` arrived at `now`: held back, or delivered with
/// what was held where the last delivery is at least the interval ago.
pub open spec fn relayed(v: SessionView, f: Seq<char>, now: u64) -> SessionView {
    let p = v.pending + f;
    if now as int - v.last_flush_ms as int >= FLUSH_INTERVAL_MS as int {
        delivered(SessionView { pending: Seq::empty(), last_flush_ms: now, ..v }, p)
    } else {
        SessionView { pending: p, ..v }
    }
}

/// `v` once the stream ended with `result` after `latency` milliseconds.
pub open spec fn finished(
    v: SessionView,
    result: Result<(), Seq<char>>,
    latency: u64,
    now: u64,
) -> SessionView {
    match result {
        Ok(()) => {
            let f = if v.pending.len() > 0 {
                delivered(SessionView { pending: Seq::empty(), ..v }, v.pending)
            } else {
                v
            };
            SessionView {
                last_latency_ms: Some(latency),
                busy: false,
                last_success_at: Some(now),
                status: "Ready"@,
                error: Seq::empty(),
                ..f
            }
        },
        Err(raw) => {
            let c = sanitized(raw);
            let b = SessionView {
                last_latency_ms: Some(latency),
                busy: false,
                last_error_at: Some(now),
                status: "Error"@,
                error: c,
                pending: Seq::empty(),
                ..v
            };
            let r = match row_of(b.messages, b.stream_target) {
                Some(i) => removed(b, i),
                None => b,
            };
            with_info(r, "Error: "@ + c, now)
        },
    }
}

pub open spec fn unit_result_view(r: Result<(), String>) -> Result<(), Seq<char>> {
    match r {
        Ok(()) => Ok(()),
        Err(e) => Err(e@),
    }
}

/// The row of the nearest user chat message before row `k`.
pub open spec fn prev_user(msgs: Seq<MessageView>, k: int) -> Option<int>
    decreases k,
{
    if k <= 0 {
        None
    } else if msgs[k - 1].sender == Sender::User && msgs[k - 1].kind == MessageKind::Chat {
        Some(k - 1)
    } else {
        prev_user(msgs, k - 1)
    }
}

/// `v` cut to end just after row `u`.
pub open spec fn truncated(v: SessionView, u: int) -> SessionView {
    SessionView {
        messages: v.messages.subrange(0, u + 1),
        events: v.events.push(crate::session::ViewEvent::Reset),
        ..v
    }
}

/// How the session answers a regenerate of the message `id` in state `v`.
pub open spec fn regenerate_post(v: SessionView, id: Seq<char>, now: u64, w: SessionView, r: SubmitOutcome) -> bool {
    if v.busy {
        w == v && r is Ignored
    } else {
        match row_of(v.messages, id) {
            None => w == v && r is Ignored,
            Some(k) => if v.messages[k].sender != Sender::Assistant {
                w == v && r is Ignored
            } else {
                match prev_user(v.messages, k) {
                    None => w == v && r is Ignored,
                    Some(u) => submit_post(
                        truncated(v, u),
                        v.messages[u].body,
                        Seq::empty(),
                        now,
                        w,
                        r,
                    ),
                }
            },
        }
    }
}

impl ChatSession {
    /// Starts the request that `submit` handed back, once its client is at
    /// hand: the session turns busy, an empty assistant placeholder is
    /// appended, and the request carries the prior chat history.
    pub fn start_request(&mut self, p: PendingRequest, now: u64) -> (r: ChatRequest)
        requires
            old(self).wf(),
            old(self).has_room(1),
        ensures
            final(self).wf(),
            final(self)@ == started(old(self)@, now),
            r.provider == p.provider,
            r.model_id@ == old(self)@.config.model_id,
            r.system_prompt@ == old(self)@.config.system_prompt,
            history_matches(r.history@, history_of(old(self)@.messages)),
            r.prompt@ == p.prompt@,
            r.attachments@ == p.attachments@,
            r.assistant_id@ == final(self)@.stream_target,
    {
        let history = self.history();
        self.busy = true;
        self.error = String::new();
        self.status = owned("Thinking...");
        self.last_request_at = Some(now);
        self.last_latency_ms = None;
        let id = self.append_message(Sender::Assistant, String::new(), MessageKind::Chat, now);
        self.stream_target = id.clone();
        self.pending = String::new();
        self.last_flush_ms = now;
        ChatRequest {
            provider: p.provider,
            model_id: self.config.model_id.clone(),
            system_prompt: self.config.system_prompt.clone(),
            history,
            prompt: p.prompt,
            attachments: p.attachments,
            assistant_id: id,
        }
    }

    /// The chat history before the last chat message.
    fn history(&self) -> (r: Vec<HistoryEntry>)
        ensures
            history_matches(r@, history_of(self@.messages)),
    {
        let mut out: Vec<HistoryEntry> = Vec::new();
        let mut i: usize = 0;
        while i < self.messages.len()
            invariant
                i <= self@.messages.len(),
                history_matches(out@, chat_only(self@.messages.subrange(0, i as int))),
            decreases self@.messages.len() - i,
        {
            let m = &self.messages[i];
            assert(self@.messages.subrange(0, i + 1).drop_last() == self@.messages.subrange(0, i as int));
            assert(self@.messages.subrange(0, i + 1).last() == self@.messages[i as int]);
            if m.kind == MessageKind::Chat {
                out.push(HistoryEntry { sender: m.sender, body: m.body.clone() });
            }
            i = i + 1;
        }
        assert(self@.messages.subrange(0, i as int) == self@.messages);
        if out.len() > 0 {
            out.pop();
        }
        out
    }

    /// Records that building the provider client failed: status "Error", the
    /// error set, and a note.
    pub fn client_failed(&mut self, err: &str, now: u64)
        requires
            old(self).wf(),
            old(self).has_room(1),
        ensures
            final(self).wf(),
            final(self)@ == client_failure(old(self)@, err@, now),
    {
        self.status = owned("Error");
        self.error = owned(err);
        let mut t = String::new();
        push_str(&mut t, "Error: ");
        push_str(&mut t, err);
        self.append_info(t.as_str(), now);
    }

    /// Appends `p` to the placeholder, if it is still there.
    fn deliver(&mut self, p: &str)
        requires
            old(self).wf(),
        ensures
            final(self).wf(),
            final(self)@ == delivered(old(self)@, p@),
    {
        match self.row_of_id(self.stream_target.as_str()) {
            None => {},
            Some(i) => {
                let mut body = self.messages[i].body.clone();
                push_str(&mut body, p);
                self.set_body(i, body);
            },
        }
    }

    /// Takes a fragment of the stream at `now`, delivering what is held where
    /// the last delivery is at least the interval ago.
    pub fn push_fragment(&mut self, fragment: &str, now: u64)
        requires
            old(self).wf(),
        ensures
            final(self).wf(),
            final(self)@ == relayed(old(self)@, fragment@, now),
    {
        push_str(&mut self.pending, fragment);
        if now >= self.last_flush_ms && now - self.last_flush_ms >= FLUSH_INTERVAL_MS {
            let p = self.pending.clone();
            self.pending = String::new();
            self.last_flush_ms = now;
            self.deliver(p.as_str());
        }
    }

    /// Ends the stream with `result`: delivers what is held and turns ready,
    /// or removes the placeholder and notes the sanitised error.
    pub fn finish_stream(&mut self, result: Result<(), String>, latency_ms: u64, now: u64)
        requires
            old(self).wf(),
            old(self).has_room(1),
        ensures
            final(self).wf(),
            final(self)@ == finished(old(self)@, unit_result_view(result), latency_ms, now),
    {
        match result {
            Ok(()) => {
                if !self.pending.as_str().is_empty() {
                    let p = self.pending.clone();
                    self.pending = String::new();
                    self.deliver(p.as_str());
                }
                self.last_latency_ms = Some(latency_ms);
                self.busy = false;
                self.last_success_at = Some(now);
                self.status = owned("Ready");
                self.error = String::new();
            },
            Err(raw) => {
                let cleaned = sanitize_error(raw.as_str());
                self.last_latency_ms = Some(latency_ms);
                self.busy = false;
                self.last_error_at = Some(now);
                self.status = owned("Error");
                self.error = cleaned.clone();
                self.pending = String::new();
                let target = self.stream_target.clone();
                let _ = self.remove_message(target.as_str());
                let mut t = String::new();
                push_str(&mut t, "Error: ");
                push_str(&mut t, cleaned.as_str());
                self.append_info(t.as_str(), now);
            },
        }
    }

    /// The row of the nearest user chat message before row `k`.
    fn prev_user_row(&self, k: usize) -> (r: Option<usize>)
        requires
            k <= self@.messages.len(),
        ensures
            match r {
                Some(u) => prev_user(self@.messages, k as int) == Some(u as int) && u < k,
                None => prev_user(self@.messages, k as int) is None,
            },
    {
        let mut j: usize = k;
        while j > 0
            invariant
                j <= k <= self@.messages.len(),
                prev_user(self@.messages, k as int) == prev_user(self@.messages, j as int),
            decreases j,
        {
            let m = &self.messages[j - 1];
            if m.sender == Sender::User && m.kind == MessageKind::Chat {
                return Some(j - 1);
            }
            j = j - 1;
        }
        None
    }

    /// Regenerates the reply `id`: where it is an assistant message with a user
    /// chat message before it, the conversation is cut to end at that user
    /// message, which is then submitted afresh.
    pub fn regenerate(&mut self, id: &str, now: u64) -> (r: SubmitOutcome)
        requires
            old(self).wf(),
            old(self).busy || old(self).has_room(2),
        ensures
            final(self).wf(),
            regenerate_post(old(self)@, id@, now, final(self)@, r),
    {
        if self.busy {
            return SubmitOutcome::Ignored;
        }
        let k = match self.row_of_id(id) {
            None => return SubmitOutcome::Ignored,
            Some(k) => k,
        };
        if self.messages[k].sender != Sender::Assistant {
            return SubmitOutcome::Ignored;
        }
        let found = self.prev_user_row(k);
        let u = match found {
            None => return SubmitOutcome::Ignored,
            Some(u) => u,
        };
        let ghost before = self@;
        self.messages.truncate(u + 1);
        assert(crate::session::message_views(self.messages@) =~= before.messages.subrange(0, u + 1));
        self.events.push(crate::session::ViewEvent::Reset);
        proof {
            let ms = self@.messages;
            assert forall|a: int| 0 <= a < ms.len() implies 1 <= #[trigger] ms[a].seq <= self@.counter by {
                assert(ms[a] == before.messages[a]);
            }
            assert forall|a: int, b: int| 0 <= a < b < ms.len() implies #[trigger] ms[a].seq
                < #[trigger] ms[b].seq by {
                assert(ms[a] == before.messages[a]);
                assert(ms[b] == before.messages[b]);
            }
            assert forall|a: int| 0 <= a < ms.len() implies #[trigger] ms[a].id == crate::session::id_text(
                ms[a].created_ms,
                ms[a].seq,
            ) by {
                assert(ms[a] == before.messages[a]);
            }
        }
        let prompt = self.messages[u].body.clone();
        self.submit(prompt.as_str(), Vec::new(), now)
    }
}

} // verus!
