//! The session's diagnostics: timestamps as text, the `/debug` snapshot and
//! the outcome of a connectivity check.
use vstd::prelude::*;
use crate::flow::{key_name, provider_of, provider_word, Provider};
use crate::session::{with_info, ChatSession, SessionView};
use crate::text::{decimal_seq, owned, push_decimal, push_str, trim, trim_seq};

verus! {

/// What chrono writes, in RFC 3339, for `ms` milliseconds after the Unix
/// epoch in UTC; `None` where that instant is out of chrono's range.
pub uninterp spec fn rfc3339_of(ms: nat) -> Option<Seq<char>>;

/// Relies on chrono's `DateTime::<Utc>::from_timestamp_millis`, which gives
/// `None` out of range, and `DateTime::to_rfc3339`.
#[verifier::external_body]
fn rfc3339_from_millis(ms: u64) -> (r: Option<String>)
    ensures
        rfc3339_of(ms as nat) == (match r {
            Some(s) => Some(s@),
            None => None::<Seq<char>>,
        }),
{
    let ms = i64::try_from(ms).ok()?;
    let t = chrono::DateTime::<chrono::Utc>::from_timestamp_millis(ms)?;
    Some(t.to_rfc3339())
}

/// An optional instant as text: "never" where unset, RFC 3339 where chrono
/// can write it, the raw milliseconds otherwise.
pub open spec fn time_text(t: Option<u64>) -> Seq<char> {
    match t {
        None => "never"@,
        Some(ms) => match rfc3339_of(ms as nat) {
            Some(s) => s,
            None => decimal_seq(ms as nat),
        },
    }
}

/// An optional instant as text.
pub fn fmt_opt_time(t: Option<u64>) -> (r: String)
    ensures
        r@ == time_text(t),
{
    match t {
        None => owned("never"),
        Some(ms) => match rfc3339_from_millis(ms) {
            Some(s) => s,
            None => {
                let mut s = String::new();
                push_decimal(&mut s, ms);
                s
            },
        },
    }
}

pub open spec fn yes_no(b: bool) -> Seq<char> {
    if b {
        "yes"@
    } else {
        "no"@
    }
}

pub open spec fn bool_word(b: bool) -> Seq<char> {
    if b {
        "true"@
    } else {
        "false"@
    }
}

pub open spec fn ms_text(t: Option<u64>) -> Seq<char> {
    match t {
        Some(ms) => decimal_seq(ms as nat) + "ms"@,
        None => "n/a"@,
    }
}

pub open spec fn verify_word(t: Option<bool>) -> Seq<char> {
    match t {
        Some(true) => "ok"@,
        Some(false) => "failed"@,
        None => "n/a"@,
    }
}

pub open spec fn base_url_text(base: Seq<char>) -> Seq<char> {
    if trim_seq(base).len() == 0 {
        "<default>"@
    } else {
        trim_seq(base)
    }
}

/// Which clients the cache holds, for the snapshot.
#[derive(Clone, Copy, Debug, PartialEq, Eq, Structural)]
pub struct CacheFlags {
    pub http: bool,
    pub openai: bool,
    pub gemini: bool,
}

/// The `/debug` snapshot of the session and its cache.
pub open spec fn debug_text(v: SessionView, f: CacheFlags) -> Seq<char> {
    "**Debug**\n\n- Provider: `"@ + provider_word(provider_of(v.config.model_id)) + "`\n- Model: `"@
        + v.config.model_id + "`\n- Busy: `"@ + bool_word(v.busy) + "`\n- Status: `"@ + v.status
        + "`\n- Error: `"@ + v.error + "`\n- HTTP pooled client cached: `"@ + yes_no(f.http)
        + "`\n- OpenAI client cached: `"@ + yes_no(f.openai) + "`\n- Gemini client cached: `"@
        + yes_no(f.gemini) + "`\n- OpenAI key set: `"@ + bool_word(v.config.openai_api_key.len() > 0)
        + "`\n- Gemini key set: `"@ + bool_word(v.config.gemini_api_key.len() > 0)
        + "`\n- OpenAI base URL: `"@ + base_url_text(v.config.openai_base_url)
        + "`\n- Last request: `"@ + time_text(v.last_request_at) + "`\n- Last success: `"@
        + time_text(v.last_success_at) + "`\n- Last error: `"@ + time_text(v.last_error_at)
        + "`\n- Last latency: `"@ + ms_text(v.last_latency_ms) + "`\n- Last verify: `"@ + time_text(
        v.last_verify_at,
    ) + "` ("@ + verify_word(v.last_verify_ok) + ", "@ + ms_text(v.last_verify_latency_ms)
        + ")\n\nRunning connectivity verify in background..."@
}

/// A connectivity check waiting for its client.
pub struct VerifyRequest {
    pub provider: Provider,
    pub credential: String,
    pub base_url: String,
}

/// The note where the check cannot run for want of a credential.
pub open spec fn verify_skipped_note(model_id: Seq<char>) -> Seq<char> {
    "**Debug**\n\nVerify skipped: "@ + key_name(model_id) + " not set."@
}

/// How `debug_report` answers in state `v`.
pub open spec fn debug_post(v: SessionView, f: CacheFlags, now: u64, w: SessionView, r: Option<VerifyRequest>) -> bool {
    let s = with_info(v, debug_text(v, f), now);
    let gemini = provider_of(v.config.model_id) == Provider::Gemini;
    let key = if gemini {
        v.config.gemini_api_key
    } else {
        v.config.openai_api_key
    };
    if key.len() == 0 {
        w == with_info(s, verify_skipped_note(v.config.model_id), now) && r is None
    } else {
        w == s && (r matches Some(q) && q.provider == provider_of(v.config.model_id) && q.credential@
            == key && q.base_url@ == v.config.openai_base_url)
    }
}

/// Where a connectivity check stopped before it ran.
#[derive(Clone, Copy, Debug, PartialEq, Eq, Structural)]
pub enum VerifyStage {
    /// The shared transport could not be built.
    Transport,
    /// The provider client could not be built.
    Client,
}

pub open spec fn verify_not_started_note(stage: VerifyStage, err: Seq<char>) -> Seq<char> {
    (if stage == VerifyStage::Transport {
        "**Debug**\n\nVerify skipped: "@
    } else {
        "**Debug**\n\nVerify failed to start: "@
    }) + err
}

/// The note that reports a finished connectivity check.
pub open spec fn verify_note(result: Result<(), Seq<char>>, latency: u64) -> Seq<char> {
    match result {
        Ok(()) => "**Debug**\n\nVerify: ok ("@ + decimal_seq(latency as nat) + "ms)"@,
        Err(e) => "**Debug**\n\nVerify: failed ("@ + decimal_seq(latency as nat) + "ms)\n\n"@ + e,
    }
}

/// `v` once a connectivity check finished with `result`.
pub open spec fn verified(v: SessionView, result: Result<(), Seq<char>>, latency: u64, now: u64) -> SessionView {
    with_info(
        SessionView {
            last_verify_at: Some(now),
            last_verify_ok: Some(result is Ok),
            last_verify_latency_ms: Some(latency),
            ..v
        },
        verify_note(result, latency),
        now,
    )
}

fn push_time(s: &mut String, t: Option<u64>)
    ensures
        final(s)@ == old(s)@ + time_text(t),
{
    let x = fmt_opt_time(t);
    push_str(s, x.as_str());
}

fn push_ms(s: &mut String, t: Option<u64>)
    ensures
        final(s)@ == old(s)@ + ms_text(t),
{
    match t {
        Some(ms) => {
            push_decimal(s, ms);
            push_str(s, "ms");
        },
        None => push_str(s, "n/a"),
    }
}

fn push_flag(s: &mut String, b: bool, yes: &str, no: &str)
    ensures
        final(s)@ == old(s)@ + (if b {
            yes@
        } else {
            no@
        }),
{
    if b {
        push_str(s, yes);
    } else {
        push_str(s, no);
    }
}

impl ChatSession {
    /// The `/debug` snapshot.
    pub fn debug_snapshot(&self, flags: CacheFlags) -> (r: String)
        ensures
            r@ == debug_text(self@, flags),
    {
        let mut s = String::new();
        push_str(&mut s, "**Debug**\n\n- Provider: `");
        let gemini = crate::flow::provider_for(self.config.model_id.as_str()) == Provider::Gemini;
        push_flag(&mut s, gemini, "gemini", "openai");
        push_str(&mut s, "`\n- Model: `");
        push_str(&mut s, self.config.model_id.as_str());
        push_str(&mut s, "`\n- Busy: `");
        push_flag(&mut s, self.busy, "true", "false");
        push_str(&mut s, "`\n- Status: `");
        push_str(&mut s, self.status.as_str());
        push_str(&mut s, "`\n- Error: `");
        push_str(&mut s, self.error.as_str());
        push_str(&mut s, "`\n- HTTP pooled client cached: `");
        push_flag(&mut s, flags.http, "yes", "no");
        push_str(&mut s, "`\n- OpenAI client cached: `");
        push_flag(&mut s, flags.openai, "yes", "no");
        push_str(&mut s, "`\n- Gemini client cached: `");
        push_flag(&mut s, flags.gemini, "yes", "no");
        push_str(&mut s, "`\n- OpenAI key set: `");
        push_flag(&mut s, !self.config.openai_api_key.as_str().is_empty(), "true", "false");
        push_str(&mut s, "`\n- Gemini key set: `");
        push_flag(&mut s, !self.config.gemini_api_key.as_str().is_empty(), "true", "false");
        push_str(&mut s, "`\n- OpenAI base URL: `");
        let base = trim(self.config.openai_base_url.as_str());
        if base.as_str().is_empty() {
            push_str(&mut s, "<default>");
        } else {
            push_str(&mut s, base.as_str());
        }
        push_str(&mut s, "`\n- Last request: `");
        push_time(&mut s, self.last_request_at);
        push_str(&mut s, "`\n- Last success: `");
        push_time(&mut s, self.last_success_at);
        push_str(&mut s, "`\n- Last error: `");
        push_time(&mut s, self.last_error_at);
        push_str(&mut s, "`\n- Last latency: `");
        push_ms(&mut s, self.last_latency_ms);
        push_str(&mut s, "`\n- Last verify: `");
        push_time(&mut s, self.last_verify_at);
        push_str(&mut s, "` (");
        match self.last_verify_ok {
            Some(true) => push_str(&mut s, "ok"),
            Some(false) => push_str(&mut s, "failed"),
            None => push_str(&mut s, "n/a"),
        }
        push_str(&mut s, ", ");
        push_ms(&mut s, self.last_verify_latency_ms);
        push_str(&mut s, ")\n\nRunning connectivity verify in background...");
        s
    }

    /// Answers `/debug`: appends the snapshot, then either a note that the
    /// check is skipped for want of a credential, or hands back the check to run.
    pub fn debug_report(&mut self, flags: CacheFlags, now: u64) -> (r: Option<VerifyRequest>)
        requires
            old(self).wf(),
            old(self).has_room(2),
        ensures
            final(self).wf(),
            debug_post(old(self)@, flags, now, final(self)@, r),
    {
        let snapshot = self.debug_snapshot(flags);
        self.append_info(snapshot.as_str(), now);
        let provider = crate::flow::provider_for(self.config.model_id.as_str());
        let key = match provider {
            Provider::Gemini => self.config.gemini_api_key.clone(),
            Provider::OpenAi => self.config.openai_api_key.clone(),
        };
        if key.as_str().is_empty() {
            let mut t = String::new();
            push_str(&mut t, "**Debug**\n\nVerify skipped: ");
            match provider {
                Provider::Gemini => push_str(&mut t, "GEMINI_API_KEY"),
                Provider::OpenAi => push_str(&mut t, "OPENAI_API_KEY"),
            }
            push_str(&mut t, " not set.");
            self.append_info(t.as_str(), now);
            return None;
        }
        Some(VerifyRequest { provider, credential: key, base_url: self.config.openai_base_url.clone() })
    }

    /// Notes that a connectivity check could not start.
    pub fn verify_not_started(&mut self, stage: VerifyStage, err: &str, now: u64)
        requires
            old(self).wf(),
            old(self).has_room(1),
        ensures
            final(self).wf(),
            final(self)@ == with_info(old(self)@, verify_not_started_note(stage, err@), now),
    {
        let mut t = String::new();
        match stage {
            VerifyStage::Transport => push_str(&mut t, "**Debug**\n\nVerify skipped: "),
            VerifyStage::Client => push_str(&mut t, "**Debug**\n\nVerify failed to start: "),
        }
        push_str(&mut t, err);
        self.append_info(t.as_str(), now);
    }

    /// Records a finished connectivity check and notes its outcome.
    pub fn record_verify(&mut self, result: Result<(), String>, latency_ms: u64, now: u64)
        requires
            old(self).wf(),
            old(self).has_room(1),
        ensures
            final(self).wf(),
            final(self)@ == verified(
                old(self)@,
                crate::flow::unit_result_view(result),
                latency_ms,
                now,
            ),
    {
        self.last_verify_at = Some(now);
        self.last_verify_ok = Some(result.is_ok());
        self.last_verify_latency_ms = Some(latency_ms);
        let mut t = String::new();
        match result {
            Ok(()) => {
                push_str(&mut t, "**Debug**\n\nVerify: ok (");
                push_decimal(&mut t, latency_ms);
                push_str(&mut t, "ms)");
            },
            Err(e) => {
                push_str(&mut t, "**Debug**\n\nVerify: failed (");
                push_decimal(&mut t, latency_ms);
                push_str(&mut t, "ms)\n\n");
                push_str(&mut t, e.as_str());
            },
        }
        self.append_info(t.as_str(), now);
    }
}

} // verus!
