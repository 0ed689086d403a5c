//! Memoised provider clients, each kept for the credential and base URL it
//! was built with.
use vstd::prelude::*;
use crate::text::{owned, str_is, trim};

verus! {

/// One cached client and the fingerprint it was built for.
pub struct ClientSlot<C> {
    pub credential: String,
    pub base_url: String,
    pub client: Option<C>,
}

impl<C> ClientSlot<C> {
    /// The slot holds a client built for exactly this credential and base URL.
    pub open spec fn serves(&self, credential: Seq<char>, base_url: Seq<char>) -> bool {
        self.client is Some && self.credential@ == credential && self.base_url@ == base_url
    }

    /// An empty slot.
    pub fn new() -> (r: Self)
        ensures
            r.client is None,
    {
        ClientSlot { credential: String::new(), base_url: String::new(), client: None }
    }

    /// What `ensure_built` does to the slot, whatever the build returned.
    pub open spec fn ensure_post(
        old: Self,
        credential: Seq<char>,
        base_url: Seq<char>,
        new: Self,
        r: Result<(), String>,
    ) -> bool {
        if old.serves(credential, base_url) {
            new == old && r is Ok
        } else {
            match r {
                Ok(()) => new.serves(credential, base_url),
                Err(_) => new == old,
            }
        }
    }

    /// Makes sure the slot serves this fingerprint: a client built for it is
    /// kept; otherwise `build` is called once and its client replaces the old one.
    pub fn ensure_built<F: FnOnce() -> Result<C, String>>(
        &mut self,
        credential: &str,
        base_url: &str,
        build: F,
    ) -> (r: Result<(), String>)
        requires
            call_requires(build, ()),
        ensures
            Self::ensure_post(*old(self), credential@, base_url@, *final(self), r),
            !old(self).serves(credential@, base_url@) ==> match r {
                Ok(()) => call_ensures(build, (), Ok(final(self).client->0)),
                Err(e) => call_ensures(build, (), Err(e)),
            },
    {
        if self.client.is_some() && str_is(self.credential.as_str(), credential) && str_is(
            self.base_url.as_str(),
            base_url,
        ) {
            return Ok(());
        }
        match build() {
            Ok(c) => {
                self.credential = owned(credential);
                self.base_url = owned(base_url);
                self.client = Some(c);
                Ok(())
            },
            Err(e) => Err(e),
        }
    }

    /// The client built for this fingerprint, if the slot holds it.
    pub fn get(&self, credential: &str, base_url: &str) -> (r: Option<&C>)
        ensures
            self.serves(credential@, base_url@) ==> r == Some(&self.client->0),
            !self.serves(credential@, base_url@) ==> r is None,
    {
        if self.client.is_some() && str_is(self.credential.as_str(), credential) && str_is(
            self.base_url.as_str(),
            base_url,
        ) {
            self.client.as_ref()
        } else {
            None
        }
    }
}

/// A client built once is served again while its fingerprint stays the same:
/// a second `ensure_built` with the same credential and base URL leaves the
/// slot, and so the client, as it is.
pub proof fn lemma_same_fingerprint_keeps_client<C>(
    s0: ClientSlot<C>,
    s1: ClientSlot<C>,
    s2: ClientSlot<C>,
    credential: Seq<char>,
    base_url: Seq<char>,
    r1: Result<(), String>,
    r2: Result<(), String>,
)
    requires
        ClientSlot::ensure_post(s0, credential, base_url, s1, r1),
        r1 is Ok,
        ClientSlot::ensure_post(s1, credential, base_url, s2, r2),
    ensures
        s2 == s1,
        s2.client == s1.client,
        r2 is Ok,
{
}

/// Once either the credential or the base URL changes, the slot no longer
/// serves the old fingerprint: the next `ensure_built` for the new one builds.
pub proof fn lemma_changed_fingerprint_rebuilds<C>(
    s: ClientSlot<C>,
    credential: Seq<char>,
    base_url: Seq<char>,
    credential2: Seq<char>,
    base_url2: Seq<char>,
)
    requires
        s.serves(credential, base_url),
        credential != credential2 || base_url != base_url2,
    ensures
        !s.serves(credential2, base_url2),
{
}

/// The shared transport and one client slot for each provider.
pub struct ProviderClientCache<H, O, G> {
    pub http: ClientSlot<H>,
    pub openai: ClientSlot<O>,
    pub gemini: ClientSlot<G>,
}

impl<H, O, G> ProviderClientCache<H, O, G> {
    /// An empty cache.
    pub fn new() -> (r: Self)
        ensures
            r.http.client is None,
            r.openai.client is None,
            r.gemini.client is None,
    {
        ProviderClientCache { http: ClientSlot::new(), openai: ClientSlot::new(), gemini: ClientSlot::new() }
    }

    /// Builds the shared transport on first use and keeps it.
    pub fn ensure_http<F: FnOnce() -> Result<H, String>>(&mut self, build: F) -> (r: Result<(), String>)
        requires
            call_requires(build, ()),
        ensures
            ClientSlot::ensure_post(old(self).http, ""@, ""@, final(self).http, r),
            !old(self).http.serves(""@, ""@) ==> match r {
                Ok(()) => call_ensures(build, (), Ok(final(self).http.client->0)),
                Err(e) => call_ensures(build, (), Err(e)),
            },
            final(self).openai == old(self).openai,
            final(self).gemini == old(self).gemini,
    {
        self.http.ensure_built("", "", build)
    }

    /// Keeps or builds the OpenAI client for `api_key` and the trimmed `base_url`.
    pub fn ensure_openai<F: FnOnce() -> Result<O, String>>(
        &mut self,
        api_key: &str,
        base_url: &str,
        build: F,
    ) -> (r: Result<(), String>)
        requires
            call_requires(build, ()),
        ensures
            ClientSlot::ensure_post(
                old(self).openai,
                api_key@,
                crate::text::trim_seq(base_url@),
                final(self).openai,
                r,
            ),
            !old(self).openai.serves(api_key@, crate::text::trim_seq(base_url@)) ==> match r {
                Ok(()) => call_ensures(build, (), Ok(final(self).openai.client->0)),
                Err(e) => call_ensures(build, (), Err(e)),
            },
            final(self).http == old(self).http,
            final(self).gemini == old(self).gemini,
    {
        let base = trim(base_url);
        self.openai.ensure_built(api_key, base.as_str(), build)
    }

    /// Keeps or builds the Gemini client for `api_key`.
    pub fn ensure_gemini<F: FnOnce() -> Result<G, String>>(&mut self, api_key: &str, build: F) -> (r: Result<(), String>)
        requires
            call_requires(build, ()),
        ensures
            ClientSlot::ensure_post(old(self).gemini, api_key@, ""@, final(self).gemini, r),
            !old(self).gemini.serves(api_key@, ""@) ==> match r {
                Ok(()) => call_ensures(build, (), Ok(final(self).gemini.client->0)),
                Err(e) => call_ensures(build, (), Err(e)),
            },
            final(self).http == old(self).http,
            final(self).openai == old(self).openai,
    {
        self.gemini.ensure_built(api_key, "", build)
    }
}

} // verus!
