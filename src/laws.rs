//! Properties of the session that hold across operations.
use vstd::prelude::*;
use crate::attachments::ChatAttachment;
use crate::flow::{regenerate_post, relayed, submit_post, SubmitOutcome};
use crate::session::{ids_ordered, id_text, row_of, ChatSession, MessageKind, MessageView, Sender, SessionView};
use crate::text::{decimal_seq, digit_char};

verus! {

/// The value of a decimal digit.
pub open spec fn digit_value(c: char) -> nat {
    if c == '1' {
        1
    } else if c == '2' {
        2
    } else if c == '3' {
        3
    } else if c == '4' {
        4
    } else if c == '5' {
        5
    } else if c == '6' {
        6
    } else if c == '7' {
        7
    } else if c == '8' {
        8
    } else if c == '9' {
        9
    } else {
        0
    }
}

/// The number that a string of decimal digits writes.
pub open spec fn decimal_value(s: Seq<char>) -> nat
    decreases s.len(),
{
    if s.len() == 0 {
        0
    } else {
        decimal_value(s.drop_last()) * 10 + digit_value(s.last())
    }
}

proof fn lemma_decimal_round_trip(n: nat)
    ensures
        decimal_value(decimal_seq(n)) == n,
        forall|k: int| 0 <= k < decimal_seq(n).len() ==> #[trigger] decimal_seq(n)[k] != '-',
    decreases n,
{
    if n < 10 {
        assert(decimal_seq(n).drop_last() =~= Seq::<char>::empty());
        assert(decimal_value(Seq::<char>::empty()) == 0);
        assert(digit_value(digit_char(n)) == n);
        assert(decimal_value(decimal_seq(n)) == decimal_value(decimal_seq(n).drop_last()) * 10
            + digit_value(decimal_seq(n).last()));
    } else {
        lemma_decimal_round_trip(n / 10);
        let s = decimal_seq(n);
        assert(s.drop_last() == decimal_seq(n / 10));
        assert(digit_value(digit_char(n % 10)) == n % 10);
        assert(s.last() == digit_char(n % 10));
        assert(decimal_value(s) == decimal_value(s.drop_last()) * 10 + digit_value(s.last()));
        assert(n == (n / 10) * 10 + n % 10) by (nonlinear_arith);
    }
}

proof fn lemma_dash_split(a: Seq<char>, b: Seq<char>, c: Seq<char>, d: Seq<char>)
    requires
        a + seq!['-'] + b == c + seq!['-'] + d,
        forall|k: int| 0 <= k < b.len() ==> #[trigger] b[k] != '-',
        forall|k: int| 0 <= k < d.len() ==> #[trigger] d[k] != '-',
    ensures
        b == d,
{
    let x = a + seq!['-'] + b;
    let l = x.len() as int;
    if b.len() < d.len() {
        let i = l - 1 - b.len();
        assert(x[i] == '-');
        assert((c + seq!['-'] + d)[i] == d[i - c.len() - 1]);
    } else if d.len() < b.len() {
        let i = l - 1 - d.len();
        assert((c + seq!['-'] + d)[i] == '-');
        assert(x[i] == b[i - a.len() - 1]);
    } else {
        assert(b =~= x.subrange(l - b.len(), l));
        assert(d =~= (c + seq!['-'] + d).subrange(l - d.len(), l));
    }
}

/// Two message ids are equal only where their counters are.
pub proof fn lemma_id_text_injective(ms1: nat, seq1: nat, ms2: nat, seq2: nat)
    requires
        id_text(ms1, seq1) == id_text(ms2, seq2),
    ensures
        seq1 == seq2,
{
    reveal_strlit("-");
    assert("-"@ =~= seq!['-']);
    lemma_decimal_round_trip(seq1);
    lemma_decimal_round_trip(seq2);
    lemma_dash_split(decimal_seq(ms1), decimal_seq(seq1), decimal_seq(ms2), decimal_seq(seq2));
}

/// In every state that the session's operations reach, message ids are
/// pairwise distinct and their creation counters strictly increase along the
/// conversation.
pub proof fn lemma_ids_unique_and_increasing(s: ChatSession)
    requires
        s.wf(),
    ensures
        forall|i: int, j: int|
            0 <= i < j < s@.messages.len() ==> #[trigger] s@.messages[i].seq < #[trigger] s@.messages[j].seq
                && s@.messages[i].id != s@.messages[j].id,
{
    let ms = s@.messages;
    assert forall|i: int, j: int| 0 <= i < j < ms.len() implies #[trigger] ms[i].seq < #[trigger] ms[j].seq
        && ms[i].id != ms[j].id by {
        if ms[i].id == ms[j].id {
            lemma_id_text_injective(ms[i].created_ms, ms[i].seq, ms[j].created_ms, ms[j].seq);
        }
    }
}

/// A submit while busy changes nothing and asks nothing of the host.
pub proof fn lemma_busy_submit_is_dropped(
    v: SessionView,
    text: Seq<char>,
    atts: Seq<ChatAttachment>,
    now: u64,
    w: SessionView,
    r: SubmitOutcome,
)
    requires
        v.busy,
        submit_post(v, text, atts, now, w, r),
    ensures
        w == v,
        r is Ignored,
{
}

proof fn lemma_row_of_unique(msgs: Seq<MessageView>, k: int)
    requires
        0 <= k < msgs.len(),
        forall|j: int| 0 <= j < msgs.len() && j != k ==> #[trigger] msgs[j].id != msgs[k].id,
    ensures
        row_of(msgs, msgs[k].id) == Some(k),
    decreases msgs.len(),
{
    if k < msgs.len() - 1 {
        let p = msgs.drop_last();
        assert forall|j: int| 0 <= j < p.len() && j != k implies #[trigger] p[j].id != p[k].id by {
            assert(p[j] == msgs[j]);
        }
        lemma_row_of_unique(p, k);
    } else {
        lemma_row_of_none(msgs.drop_last(), msgs[k].id);
    }
}

proof fn lemma_row_of_none(msgs: Seq<MessageView>, id: Seq<char>)
    requires
        forall|j: int| 0 <= j < msgs.len() ==> #[trigger] msgs[j].id != id,
    ensures
        row_of(msgs, id) is None,
    decreases msgs.len(),
{
    if msgs.len() > 0 {
        let p = msgs.drop_last();
        assert forall|j: int| 0 <= j < p.len() implies #[trigger] p[j].id != id by {
            assert(p[j] == msgs[j]);
        }
        lemma_row_of_none(p, id);
    }
}

/// Regenerating the last reply `[..., user(A), assistant(B)]` is the same as
/// cutting the conversation to `[..., user(A)]` and submitting `A`'s body afresh.
pub proof fn lemma_regenerate_last_reply(v: SessionView, now: u64, w: SessionView, r: SubmitOutcome)
    requires
        ids_ordered(v.messages, v.counter),
        !v.busy,
        v.messages.len() >= 2,
        v.messages[v.messages.len() - 2].sender == Sender::User,
        v.messages[v.messages.len() - 2].kind == MessageKind::Chat,
        v.messages.last().sender == Sender::Assistant,
        regenerate_post(v, v.messages.last().id, now, w, r),
    ensures
        submit_post(
            SessionView {
                messages: v.messages.drop_last(),
                events: v.events.push(crate::session::ViewEvent::Reset),
                ..v
            },
            v.messages[v.messages.len() - 2].body,
            Seq::empty(),
            now,
            w,
            r,
        ),
{
    let ms = v.messages;
    let k = ms.len() - 1;
    assert forall|j: int| 0 <= j < ms.len() && j != k implies #[trigger] ms[j].id != ms[k].id by {
        if ms[j].id == ms[k].id {
            lemma_id_text_injective(ms[j].created_ms, ms[j].seq, ms[k].created_ms, ms[k].seq);
        }
    }
    lemma_row_of_unique(ms, k);
    assert(ms.subrange(0, k) =~= ms.drop_last());
}

/// The relay drops no fragment: while the placeholder stands, its body
/// followed by the text held back grows by exactly the fragment, whether the
/// fragment is delivered at once or held.
pub proof fn lemma_relay_keeps_every_fragment(v: SessionView, f: Seq<char>, now: u64, i: int)
    requires
        row_of(v.messages, v.stream_target) == Some(i),
        0 <= i < v.messages.len(),
    ensures
        relayed(v, f, now).messages.len() == v.messages.len(),
        relayed(v, f, now).messages[i].body + relayed(v, f, now).pending == v.messages[i].body
            + v.pending + f,
{
    let w = relayed(v, f, now);
    if now as int - v.last_flush_ms as int >= crate::flow::FLUSH_INTERVAL_MS as int {
        assert(w.messages[i].body == v.messages[i].body + (v.pending + f));
        assert(w.pending =~= Seq::<char>::empty());
        assert(w.messages[i].body + w.pending =~= v.messages[i].body + v.pending + f);
    } else {
        assert(w.messages[i].body + w.pending =~= v.messages[i].body + v.pending + f);
    }
}

} // verus!
