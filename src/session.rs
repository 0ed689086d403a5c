//! The chat session: the conversation, the busy gate and the diagnostics, as a
//! state machine whose transitions are stated over `SessionView`.
use vstd::prelude::*;
use crate::text::{decimal_seq, from_chars, owned, push_char, push_decimal, push_str, to_chars};

verus! {

/// Who wrote a message.
#[derive(Clone, Copy, Debug, PartialEq, Eq, Structural)]
pub enum Sender {
    User,
    Assistant,
}

/// A chat turn, or a note that is never sent to a provider.
#[derive(Clone, Copy, Debug, PartialEq, Eq, Structural)]
pub enum MessageKind {
    Chat,
    Info,
}

/// A change that the conversation's observer is told of.
#[derive(Clone, Copy, Debug, PartialEq, Eq, Structural)]
pub enum ViewEvent {
    /// A message was appended at this row.
    Inserted(usize),
    /// The message at this row was removed.
    Removed(usize),
    /// The conversation was cleared or truncated.
    Reset,
    /// The body of the message at this row changed.
    Changed(usize),
}

/// One message of the conversation.
pub struct ChatMessage {
    pub message_id: String,
    pub created_ms: u64,
    pub seq: u64,
    pub sender: Sender,
    pub body: String,
    pub kind: MessageKind,
}

/// The mathematical content of a message.
pub struct MessageView {
    pub id: Seq<char>,
    pub created_ms: nat,
    pub seq: nat,
    pub sender: Sender,
    pub body: Seq<char>,
    pub kind: MessageKind,
}

impl View for ChatMessage {
    type V = MessageView;

    open spec fn view(&self) -> MessageView {
        MessageView {
            id: self.message_id@,
            created_ms: self.created_ms as nat,
            seq: self.seq as nat,
            sender: self.sender,
            body: self.body@,
            kind: self.kind,
        }
    }
}

/// A message id: the wall-clock millisecond, a dash, and the creation counter.
pub open spec fn id_text(ms: nat, seq: nat) -> Seq<char> {
    decimal_seq(ms) + "-"@ + decimal_seq(seq)
}

/// The views of a list of messages.
pub open spec fn message_views(m: Seq<ChatMessage>) -> Seq<MessageView> {
    m.map_values(|x: ChatMessage| x@)
}

fn message_id_text(ms: u64, seq: u64) -> (r: String)
    ensures
        r@ == id_text(ms as nat, seq as nat),
{
    let mut s = String::new();
    push_decimal(&mut s, ms);
    push_char(&mut s, '-');
    proof {
        reveal_strlit("-");
        assert("-"@ == seq!['-']);
    }
    push_decimal(&mut s, seq);
    s
}

/// Message ids increase with the order of the conversation, and none exceeds
/// the counter.
pub open spec fn ids_ordered(msgs: Seq<MessageView>, counter: nat) -> bool {
    &&& forall|i: int| 0 <= i < msgs.len() ==> 1 <= #[trigger] msgs[i].seq <= counter
    &&& forall|i: int, j: int| 0 <= i < j < msgs.len() ==> #[trigger] msgs[i].seq < #[trigger] msgs[j].seq
    &&& forall|i: int| 0 <= i < msgs.len() ==> #[trigger] msgs[i].id == id_text(msgs[i].created_ms, msgs[i].seq)
}

/// The first row whose message has the id `id`.
pub open spec fn row_of(msgs: Seq<MessageView>, id: Seq<char>) -> Option<int>
    decreases msgs.len(),
{
    if msgs.len() == 0 {
        None
    } else {
        match row_of(msgs.drop_last(), id) {
            Some(i) => Some(i),
            None => if msgs.last().id == id {
                Some(msgs.len() - 1)
            } else {
                None
            },
        }
    }
}

/// What the session reads on every submit; set from outside between submits.
pub struct SessionConfig {
    pub model_id: String,
    pub system_prompt: String,
    pub openai_api_key: String,
    pub gemini_api_key: String,
    pub openai_base_url: String,
}

pub struct ConfigView {
    pub model_id: Seq<char>,
    pub system_prompt: Seq<char>,
    pub openai_api_key: Seq<char>,
    pub gemini_api_key: Seq<char>,
    pub openai_base_url: Seq<char>,
}

impl View for SessionConfig {
    type V = ConfigView;

    open spec fn view(&self) -> ConfigView {
        ConfigView {
            model_id: self.model_id@,
            system_prompt: self.system_prompt@,
            openai_api_key: self.openai_api_key@,
            gemini_api_key: self.gemini_api_key@,
            openai_base_url: self.openai_base_url@,
        }
    }
}

/// The chat session: the conversation, the busy gate, the configuration,
/// diagnostics, the observer's pending events and the stream in flight.
pub struct ChatSession {
    pub messages: Vec<ChatMessage>,
    pub id_counter: u64,
    pub busy: bool,
    pub status: String,
    pub error: String,
    pub config: SessionConfig,
    pub last_request_at: Option<u64>,
    pub last_success_at: Option<u64>,
    pub last_error_at: Option<u64>,
    pub last_latency_ms: Option<u64>,
    pub last_verify_at: Option<u64>,
    pub last_verify_ok: Option<bool>,
    pub last_verify_latency_ms: Option<u64>,
    pub events: Vec<ViewEvent>,
    /// The id of the placeholder that the stream in flight fills, its
    /// undelivered text, and the time of its last flush.
    pub stream_target: String,
    pub pending: String,
    pub last_flush_ms: u64,
}

pub struct SessionView {
    pub messages: Seq<MessageView>,
    pub counter: nat,
    pub busy: bool,
    pub status: Seq<char>,
    pub error: Seq<char>,
    pub config: ConfigView,
    pub last_request_at: Option<u64>,
    pub last_success_at: Option<u64>,
    pub last_error_at: Option<u64>,
    pub last_latency_ms: Option<u64>,
    pub last_verify_at: Option<u64>,
    pub last_verify_ok: Option<bool>,
    pub last_verify_latency_ms: Option<u64>,
    pub events: Seq<ViewEvent>,
    pub stream_target: Seq<char>,
    pub pending: Seq<char>,
    pub last_flush_ms: u64,
}

impl View for ChatSession {
    type V = SessionView;

    open spec fn view(&self) -> SessionView {
        SessionView {
            messages: message_views(self.messages@),
            counter: self.id_counter as nat,
            busy: self.busy,
            status: self.status@,
            error: self.error@,
            config: self.config@,
            last_request_at: self.last_request_at,
            last_success_at: self.last_success_at,
            last_error_at: self.last_error_at,
            last_latency_ms: self.last_latency_ms,
            last_verify_at: self.last_verify_at,
            last_verify_ok: self.last_verify_ok,
            last_verify_latency_ms: self.last_verify_latency_ms,
            events: self.events@,
            stream_target: self.stream_target@,
            pending: self.pending@,
            last_flush_ms: self.last_flush_ms,
        }
    }
}

/// `v` with a message appended, stamped `now` and numbered by the counter.
pub open spec fn appended(
    v: SessionView,
    sender: Sender,
    body: Seq<char>,
    kind: MessageKind,
    now: u64,
) -> SessionView {
    SessionView {
        messages: v.messages.push(
            MessageView {
                id: id_text(now as nat, v.counter + 1),
                created_ms: now as nat,
                seq: v.counter + 1,
                sender,
                body,
                kind,
            },
        ),
        counter: v.counter + 1,
        events: v.events.push(ViewEvent::Inserted(v.messages.len() as usize)),
        ..v
    }
}

/// `v` with the message at row `i` removed.
pub open spec fn removed(v: SessionView, i: int) -> SessionView {
    SessionView {
        messages: v.messages.remove(i),
        events: v.events.push(ViewEvent::Removed(i as usize)),
        ..v
    }
}

/// `v` with an empty conversation.
pub open spec fn cleared(v: SessionView) -> SessionView {
    SessionView { messages: Seq::empty(), events: v.events.push(ViewEvent::Reset), ..v }
}

/// `v` with the body of the message at row `i` replaced.
pub open spec fn body_set(v: SessionView, i: int, body: Seq<char>) -> SessionView {
    SessionView {
        messages: v.messages.update(i, MessageView { body, ..v.messages[i] }),
        events: v.events.push(ViewEvent::Changed(i as usize)),
        ..v
    }
}

/// An assistant note.
pub open spec fn with_info(v: SessionView, text: Seq<char>, now: u64) -> SessionView {
    appended(v, Sender::Assistant, text, MessageKind::Info, now)
}

/// The transcript line of a chat message.
pub open spec fn transcript_line(m: MessageView) -> Seq<char> {
    (if m.sender == Sender::User {
        "*user*: "@
    } else {
        "*assistant*: "@
    }) + m.body
}

/// The transcript lines of the chat messages of `msgs`, notes left out.
pub open spec fn transcript_lines(msgs: Seq<MessageView>) -> Seq<Seq<char>>
    decreases msgs.len(),
{
    if msgs.len() == 0 {
        Seq::empty()
    } else if msgs.last().kind == MessageKind::Info {
        transcript_lines(msgs.drop_last())
    } else {
        transcript_lines(msgs.drop_last()).push(transcript_line(msgs.last()))
    }
}

impl ChatSession {
    /// The session's invariant: ids ordered and numbered by the counter.
    pub open spec fn wf(&self) -> bool {
        ids_ordered(self@.messages, self@.counter)
    }

    /// Room for `n` more messages before the id counter runs out.
    pub open spec fn has_room(&self, n: nat) -> bool {
        self.id_counter + n <= u64::MAX
    }

    proof fn lemma_views_push(m: Seq<ChatMessage>, x: ChatMessage)
        ensures
            message_views(m.push(x)) == message_views(m).push(x@),
    {
        assert(message_views(m.push(x)) =~= message_views(m).push(x@));
    }

    /// Appends a message stamped `now` and returns its id.
    pub fn append_message(
        &mut self,
        sender: Sender,
        body: String,
        kind: MessageKind,
        now: u64,
    ) -> (id: String)
        requires
            old(self).wf(),
            old(self).has_room(1),
        ensures
            final(self).wf(),
            final(self)@ == appended(old(self)@, sender, body@, kind, now),
            id@ == id_text(now as nat, old(self)@.counter + 1),
    {
        let seq = self.id_counter + 1;
        let id = message_id_text(now, seq);
        let row = self.messages.len();
        let msg = ChatMessage {
            message_id: id.clone(),
            created_ms: now,
            seq,
            sender,
            body,
            kind,
        };
        proof {
            Self::lemma_views_push(self.messages@, msg);
        }
        self.messages.push(msg);
        self.id_counter = seq;
        self.events.push(ViewEvent::Inserted(row));
        proof {
            let ms = self@.messages;
            assert forall|i: int| 0 <= i < ms.len() implies 1 <= #[trigger] ms[i].seq <= self@.counter by {
                if i < ms.len() - 1 {
                    assert(ms[i] == old(self)@.messages[i]);
                }
            }
            assert forall|i: int, j: int| 0 <= i < j < ms.len() implies #[trigger] ms[i].seq
                < #[trigger] ms[j].seq by {
                assert(ms[i] == old(self)@.messages[i]);
                if j < ms.len() - 1 {
                    assert(ms[j] == old(self)@.messages[j]);
                }
            }
            assert forall|i: int| 0 <= i < ms.len() implies #[trigger] ms[i].id == id_text(
                ms[i].created_ms,
                ms[i].seq,
            ) by {
                if i < ms.len() - 1 {
                    assert(ms[i] == old(self)@.messages[i]);
                }
            }
        }
        id
    }

    /// Appends an assistant note.
    pub fn append_info(&mut self, text: &str, now: u64)
        requires
            old(self).wf(),
            old(self).has_room(1),
        ensures
            final(self).wf(),
            final(self)@ == with_info(old(self)@, text@, now),
    {
        let body = from_chars(&to_chars(text));
        self.append_message(Sender::Assistant, body, MessageKind::Info, now);
    }

    /// The row of the message with id `id`.
    pub fn row_of_id(&self, id: &str) -> (r: Option<usize>)
        ensures
            match r {
                Some(i) => row_of(self@.messages, id@) == Some(i as int) && i < self@.messages.len(),
                None => row_of(self@.messages, id@) is None,
            },
    {
        let target = to_chars(id);
        let mut i: usize = 0;
        while i < self.messages.len()
            invariant
                i <= self@.messages.len(),
                target@ == id@,
                row_of(self@.messages.subrange(0, i as int), id@) is None,
            decreases self@.messages.len() - i,
        {
            let m = &self.messages[i];
            let mid = to_chars(m.message_id.as_str());
            let same = crate::text::eq_vec(&mid, &target);
            assert(mid@ == self.messages@[i as int].message_id@);
            assert(same == (self.messages@[i as int].message_id@ == id@));
            assert(self@.messages.subrange(0, i + 1).drop_last() == self@.messages.subrange(0, i as int));
            assert(self@.messages.subrange(0, i + 1).last() == self@.messages[i as int]);
            assert(self@.messages[i as int].id == self.messages@[i as int].message_id@);
            let ghost pre = self@.messages.subrange(0, i + 1);
            assert(pre.len() > 0);
            assert(row_of(pre, id@) == (if pre.last().id == id@ {
                Some(pre.len() - 1)
            } else {
                None
            }));
            if same {
                proof {
                    Self::lemma_row_of_prefix(self@.messages, id@, i + 1);
                }
                return Some(i);
            }
            i = i + 1;
        }
        assert(self@.messages.subrange(0, i as int) == self@.messages);
        None
    }

    proof fn lemma_row_of_prefix(msgs: Seq<MessageView>, id: Seq<char>, k: int)
        requires
            0 < k <= msgs.len(),
            row_of(msgs.subrange(0, k), id) is Some,
        ensures
            row_of(msgs, id) == row_of(msgs.subrange(0, k), id),
        decreases msgs.len(),
    {
        if k < msgs.len() {
            assert(msgs.drop_last().subrange(0, k) == msgs.subrange(0, k));
            Self::lemma_row_of_prefix(msgs.drop_last(), id, k);
        } else {
            assert(msgs.subrange(0, k) == msgs);
        }
    }

    /// Removes the message with id `id`; false where there is none.
    pub fn remove_message(&mut self, id: &str) -> (r: bool)
        requires
            old(self).wf(),
        ensures
            final(self).wf(),
            r == row_of(old(self)@.messages, id@) is Some,
            match row_of(old(self)@.messages, id@) {
                Some(i) => final(self)@ == removed(old(self)@, i),
                None => final(self)@ == old(self)@,
            },
    {
        match self.row_of_id(id) {
            None => false,
            Some(i) => {
                let ghost old_msgs = self.messages@;
                self.messages.remove(i);
                assert(message_views(self.messages@) =~= message_views(old_msgs).remove(i as int));
                self.events.push(ViewEvent::Removed(i));
                proof {
                    let ms = self@.messages;
                    let om = message_views(old_msgs);
                    assert forall|a: int| 0 <= a < ms.len() implies 1 <= #[trigger] ms[a].seq
                        <= self@.counter by {
                        if a >= i {
                            assert(ms[a] == om[a + 1]);
                        } else {
                            assert(ms[a] == om[a]);
                        }
                    }
                    assert forall|a: int, b: int| 0 <= a < b < ms.len() implies #[trigger] ms[a].seq
                        < #[trigger] ms[b].seq by {
                        let a2 = if a >= i {
                            a + 1
                        } else {
                            a
                        };
                        let b2 = if b >= i {
                            b + 1
                        } else {
                            b
                        };
                        assert(ms[a] == om[a2]);
                        assert(ms[b] == om[b2]);
                    }
                    assert forall|a: int| 0 <= a < ms.len() implies #[trigger] ms[a].id == id_text(
                        ms[a].created_ms,
                        ms[a].seq,
                    ) by {
                        if a >= i {
                            assert(ms[a] == om[a + 1]);
                        } else {
                            assert(ms[a] == om[a]);
                        }
                    }
                }
                true
            },
        }
    }

    /// Deletes the message with id `id`, if there is one.
    pub fn delete_message(&mut self, id: &str)
        requires
            old(self).wf(),
        ensures
            final(self).wf(),
            match row_of(old(self)@.messages, id@) {
                Some(i) => final(self)@ == removed(old(self)@, i),
                None => final(self)@ == old(self)@,
            },
    {
        let _ = self.remove_message(id);
    }

    /// Replaces the body of message `i`, telling the observer.
    pub(crate) fn set_body(&mut self, i: usize, body: String)
        requires
            old(self).wf(),
            i < old(self)@.messages.len(),
        ensures
            final(self).wf(),
            final(self)@ == body_set(old(self)@, i as int, body@),
    {
        let ghost old_msgs = self.messages@;
        let mut m = self.messages.remove(i);
        m.body = body;
        self.messages.insert(i, m);
        assert(message_views(self.messages@) =~= message_views(old_msgs).update(
            i as int,
            MessageView { body: body@, ..message_views(old_msgs)[i as int] },
        ));
        self.events.push(ViewEvent::Changed(i));
        proof {
            let ms = self@.messages;
            let om = message_views(old_msgs);
            assert forall|a: int| 0 <= a < ms.len() implies 1 <= #[trigger] ms[a].seq <= self@.counter by {
                assert(ms[a].seq == om[a].seq);
            }
            assert forall|a: int, b: int| 0 <= a < b < ms.len() implies #[trigger] ms[a].seq
                < #[trigger] ms[b].seq by {
                assert(ms[a].seq == om[a].seq);
                assert(ms[b].seq == om[b].seq);
            }
            assert forall|a: int| 0 <= a < ms.len() implies #[trigger] ms[a].id == id_text(
                ms[a].created_ms,
                ms[a].seq,
            ) by {
                assert(ms[a].id == om[a].id);
            }
        }
    }

    /// Replaces the body of the message with id `id`, if there is one; nothing
    /// is resent.
    pub fn edit_message(&mut self, id: &str, new_body: &str)
        requires
            old(self).wf(),
        ensures
            final(self).wf(),
            match row_of(old(self)@.messages, id@) {
                Some(i) => final(self)@ == body_set(old(self)@, i, new_body@),
                None => final(self)@ == old(self)@,
            },
    {
        match self.row_of_id(id) {
            None => {},
            Some(i) => {
                let body = from_chars(&to_chars(new_body));
                self.set_body(i, body);
            },
        }
    }

    /// Empties the conversation.
    pub fn reset_conversation(&mut self)
        requires
            old(self).wf(),
        ensures
            final(self).wf(),
            final(self)@ == cleared(old(self)@),
    {
        self.messages.clear();
        assert(message_views(self.messages@) =~= Seq::<MessageView>::empty());
        self.events.push(ViewEvent::Reset);
    }

    /// Clears the conversation and announces the switch to `model_id`;
    /// dropped while a request is in flight.
    pub fn reset_for_model_switch(&mut self, model_id: &str, now: u64)
        requires
            old(self).wf(),
            old(self).has_room(1),
        ensures
            final(self).wf(),
            old(self).busy ==> final(self)@ == old(self)@,
            !old(self).busy ==> final(self)@ == with_info(
                cleared(old(self)@),
                "Switched to "@ + model_id@ + ". Chat history cleared."@,
                now,
            ),
    {
        if self.busy {
            return;
        }
        self.reset_conversation();
        let mut text = String::new();
        push_str(&mut text, "Switched to ");
        push_str(&mut text, model_id);
        push_str(&mut text, ". Chat history cleared.");
        self.append_info(text.as_str(), now);
    }

    /// The chat messages as `*role*: body` lines, one per line; notes are left out.
    pub fn copy_all_text(&self) -> (r: String)
        ensures
            r@ == crate::text::join_seq(transcript_lines(self@.messages), "\n"@),
    {
        let mut lines: Vec<String> = Vec::new();
        let mut i: usize = 0;
        while i < self.messages.len()
            invariant
                i <= self@.messages.len(),
                crate::text::views(lines@) == transcript_lines(self@.messages.subrange(0, i as int)),
            decreases self@.messages.len() - i,
        {
            let m = &self.messages[i];
            assert(self@.messages.subrange(0, i + 1).drop_last() == self@.messages.subrange(0, i as int));
            if m.kind == MessageKind::Chat {
                let mut line = String::new();
                if m.sender == Sender::User {
                    push_str(&mut line, "*user*: ");
                } else {
                    push_str(&mut line, "*assistant*: ");
                }
                push_str(&mut line, m.body.as_str());
                assert(crate::text::views(lines@.push(line)) =~= crate::text::views(lines@).push(line@));
                lines.push(line);
            }
            i = i + 1;
        }
        assert(self@.messages.subrange(0, i as int) == self@.messages);
        crate::text::join(&lines, "\n")
    }
}

/// A fresh session's state before its greeting.
pub open spec fn blank(config: ConfigView) -> SessionView {
    SessionView {
        messages: Seq::empty(),
        counter: 0,
        busy: false,
        status: "Ready"@,
        error: Seq::empty(),
        config,
        last_request_at: None,
        last_success_at: None,
        last_error_at: None,
        last_latency_ms: None,
        last_verify_at: None,
        last_verify_ok: None,
        last_verify_latency_ms: None,
        events: Seq::empty(),
        stream_target: Seq::empty(),
        pending: Seq::empty(),
        last_flush_ms: 0,
    }
}

/// A fresh session: idle, "Ready", and greeted with two notes.
pub open spec fn initial(config: ConfigView, now: u64) -> SessionView {
    with_info(
        with_info(blank(config), "Hi! This panel is wired to OpenAI/Gemini chat via qs-native."@, now),
        "Set OPENAI_API_KEY or GEMINI_API_KEY to enable replies."@,
        now,
    )
}

impl ChatSession {
    /// A new session with `config`, greeted at `now`.
    pub fn new(config: SessionConfig, now: u64) -> (r: ChatSession)
        ensures
            r.wf(),
            r@ == initial(config@, now),
    {
        let mut s = ChatSession {
            messages: Vec::new(),
            id_counter: 0,
            busy: false,
            status: owned("Ready"),
            error: String::new(),
            config,
            last_request_at: None,
            last_success_at: None,
            last_error_at: None,
            last_latency_ms: None,
            last_verify_at: None,
            last_verify_ok: None,
            last_verify_latency_ms: None,
            events: Vec::new(),
            stream_target: String::new(),
            pending: String::new(),
            last_flush_ms: 0,
        };
        assert(message_views(s.messages@) =~= Seq::<MessageView>::empty());
        s.append_info("Hi! This panel is wired to OpenAI/Gemini chat via qs-native.", now);
        s.append_info("Set OPENAI_API_KEY or GEMINI_API_KEY to enable replies.", now);
        s
    }

    /// Replaces the configuration read by later submits.
    pub fn set_config(&mut self, config: SessionConfig)
        requires
            old(self).wf(),
        ensures
            final(self).wf(),
            final(self)@ == (SessionView { config: config@, ..old(self)@ }),
    {
        self.config = config;
    }

    /// Takes the observer's pending events, oldest first.
    pub fn take_events(&mut self) -> (r: Vec<ViewEvent>)
        requires
            old(self).wf(),
        ensures
            final(self).wf(),
            r@ == old(self)@.events,
            final(self)@ == (SessionView { events: Seq::empty(), ..old(self)@ }),
    {
        let r = self.events.clone();
        self.events = Vec::new();
        proof {
            assert(r@ =~= old(self)@.events);
        }
        r
    }
}

} // verus!
