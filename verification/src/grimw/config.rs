//! A worker's configuration.

use crate::text::{cat, has_prefix, opt_text, texts};
use crate::worker_rpc_server::{pairs, Register};
use vstd::prelude::*;

verus! {

/// A worker's configuration.
#[derive(Debug)]
pub struct GrimwConfig {
    /// `https://host:port` of the daemon's worker listener. Plaintext URLs are
    /// rejected.
    pub daemon_url: String,
    pub secret: String,
    /// Path to the daemon's certificate, pinned as the trust anchor.
    pub daemon_cert_path: String,
    /// SHA-256 fingerprint that the pinned certificate is held against, where
    /// it is set.
    pub daemon_cert_sha256: String,
    pub tls_cert_path: Option<String>,
    pub tls_key_path: Option<String>,
    pub worker_id: Option<String>,
    pub max_concurrent: u32,
    pub tags: Vec<String>,
    /// Each provider under its name.
    pub providers: Vec<(String, ProviderConfig)>,
}

/// How a provider is run.
#[derive(Debug)]
pub struct ProviderConfig {
    pub binary: String,
    pub args_template: Vec<String>,
    pub version: String,
    pub env: Vec<(String, String)>,
}

/// Tasks at once where the configuration does not say.
pub fn default_max_concurrent() -> (r: u32)
    ensures
        r == 4,
{
    4
}

/// Version of a provider where the configuration does not say.
pub fn default_version() -> (r: String)
    ensures
        r@ == "0.0.0"@,
{
    crate::text::own("0.0.0")
}

/// Name and version of each provider.
pub open spec fn capabilities(list: Seq<(String, ProviderConfig)>) -> Seq<(Seq<char>, Seq<char>)> {
    list.map_values(|p: (String, ProviderConfig)| (p.0@, p.1.version@))
}

impl GrimwConfig {
    /// Whether the daemon is reached over an encrypted link, without which the
    /// configuration is rejected.
    pub fn encrypted(&self) -> (r: bool)
        ensures
            r == "https://"@.is_prefix_of(self.daemon_url@),
    {
        has_prefix(&self.daemon_url, "https://")
    }

    /// The worker's id: the configured one, or one made from a freshly drawn
    /// unique text.
    pub fn effective_id(&self, fresh: &str) -> (r: String)
        ensures
            r@ == (match opt_text(self.worker_id) {
                Some(id) => id,
                None => "w-"@ + fresh@,
            }),
    {
        match &self.worker_id {
            Some(id) => id.clone(),
            None => cat("w-", fresh),
        }
    }

    /// The message with which the worker registers.
    pub fn register_message(&self, worker_id: &str, worker_version: &str, protocol_version: u32) -> (r:
        Register)
        ensures
            r.worker_id@ == worker_id@,
            r.bearer_token@ == self.secret@,
            r.worker_version@ == worker_version@,
            r.max_concurrent == self.max_concurrent,
            pairs(r.providers@) == capabilities(self.providers@),
            texts(r.tags@) == texts(self.tags@),
            r.protocol_version == protocol_version,
    {
        let mut providers: Vec<(String, String)> = Vec::new();
        for i in 0..self.providers.len()
            invariant
                providers@.len() == i,
                forall|k: int|
                    0 <= k < i ==> (#[trigger] providers@[k]).0@ == self.providers@[k].0@
                        && providers@[k].1@ == self.providers@[k].1.version@,
        {
            let (name, cfg) = &self.providers[i];
            providers.push((name.clone(), cfg.version.clone()));
        }
        assert(pairs(providers@) =~= capabilities(self.providers@));
        Register {
            worker_id: crate::text::own(worker_id),
            bearer_token: self.secret.clone(),
            worker_version: crate::text::own(worker_version),
            max_concurrent: self.max_concurrent,
            providers,
            tags: crate::text::copy_texts(&self.tags),
            protocol_version,
        }
    }
}

// ---------------------------------------------------------------------------
// Laws
// ---------------------------------------------------------------------------

/// A worker registers with its secret and what it is configured with: each of
/// its providers under its name, in its version.
pub proof fn workers_register_with_their_configuration(
    config: GrimwConfig,
    worker_id: &str,
    version: &str,
    protocol: u32,
    r: Register,
    i: int,
)
    requires
        call_ensures(GrimwConfig::register_message, (&config, worker_id, version, protocol), r),
        0 <= i < config.providers@.len(),
    ensures
        r.worker_id@ == worker_id@,
        r.bearer_token@ == config.secret@,
        r.worker_version@ == version@,
        r.max_concurrent == config.max_concurrent,
        r.protocol_version == protocol,
        r.providers@.len() == config.providers@.len(),
        r.providers@[i].0@ == config.providers@[i].0@,
        r.providers@[i].1@ == config.providers@[i].1.version@,
        texts(r.tags@) == texts(config.tags@),
{
    assert(pairs(r.providers@).len() == r.providers@.len());
    assert(capabilities(config.providers@).len() == config.providers@.len());
    assert(pairs(r.providers@)[i] == (r.providers@[i].0@, r.providers@[i].1@));
}

/// A worker goes by the id that it is configured with, or by a fresh one; its
/// link has to be encrypted. It runs four tasks at once where nothing else is
/// said.
pub proof fn workers_have_ids_and_encrypted_links(
    config: GrimwConfig,
    fresh: &str,
    id: String,
    encrypted: bool,
    tasks: u32,
    version: String,
)
    requires
        call_ensures(GrimwConfig::effective_id, (&config, fresh), id),
        call_ensures(GrimwConfig::encrypted, (&config,), encrypted),
        call_ensures(default_max_concurrent, (), tasks),
        call_ensures(default_version, (), version),
    ensures
        config.worker_id matches Some(w) ==> id@ == w@,
        config.worker_id is None ==> id@ == "w-"@ + fresh@,
        encrypted <==> "https://"@.is_prefix_of(config.daemon_url@),
        tasks == 4,
        version@ == "0.0.0"@,
{
}

} // verus!
