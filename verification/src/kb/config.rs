//! The knowledgebase agent's settings: read from its environment, with the
//! secrets the environment leaves empty taken from the dashboard's platform
//! secrets.
use vstd::prelude::*;
use crate::protocol::opt_view;
use crate::text::{chars_of, concat, string_of};

verus! {

/// The environment variables the agent reads, each absent or its text.
#[derive(Debug, Clone)]
pub struct KbEnv {
    pub database_url: Option<String>,
    pub kb_listen_addr: Option<String>,
    pub port: Option<String>,
    pub kb_static_dir: Option<String>,
    pub agent_secret: Option<String>,
    pub dashboard_url: Option<String>,
    pub openai_api_key: Option<String>,
    pub openai_model: Option<String>,
    pub s3_region: Option<String>,
    pub s3_access_key: Option<String>,
    pub s3_secret_key: Option<String>,
    pub s3_bucket: Option<String>,
    pub s3_endpoint: Option<String>,
}

/// Where documents are stored.
#[derive(Debug, Clone)]
pub struct S3Config {
    pub region: String,
    pub access_key: String,
    pub secret_key: String,
    pub bucket: String,
    pub endpoint: Option<String>,
}

#[derive(Debug, Clone)]
pub struct Config {
    pub database_url: String,
    pub listen_addr: String,
    pub static_dir: String,
    pub agent_secret: String,
    pub dashboard_url: String,
    pub openai_api_key: String,
    pub openai_model: String,
    pub s3_region: String,
    pub s3_access_key: String,
    pub s3_secret_key: String,
    pub s3_bucket: String,
    pub s3_endpoint: String,
}

/// The variable's text, or `default` when it is absent.
pub open spec fn or_default(v: Option<String>, default: Seq<char>) -> Seq<char> {
    match v {
        Some(s) => s@,
        None => default,
    }
}

/// `KB_LISTEN_ADDR`, else `0.0.0.0:` and `PORT` (by default `4001`).
pub open spec fn kb_listen_addr_of(addr: Option<String>, port: Option<String>) -> Seq<char> {
    match addr {
        Some(a) => a@,
        None => "0.0.0.0:"@ + or_default(port, "4001"@),
    }
}

fn text_or(v: &Option<String>, default: &str) -> (res: String)
    ensures
        res@ == or_default(*v, default@),
{
    match v {
        Some(s) => s.clone(),
        None => String::from_str(default),
    }
}

/// The secrets the agent may take from the dashboard's platform secrets.
#[derive(Debug, Clone, Copy, PartialEq, Eq, Structural)]
pub enum SecretSlot {
    OpenaiApiKey,
    S3Region,
    S3AccessKey,
    S3SecretKey,
    S3Bucket,
    S3Endpoint,
}

impl SecretSlot {
    pub open spec fn key_text(self) -> Seq<char> {
        match self {
            SecretSlot::OpenaiApiKey => "OPENAI_API_KEY"@,
            SecretSlot::S3Region => "S3_REGION"@,
            SecretSlot::S3AccessKey => "S3_ACCESS_KEY"@,
            SecretSlot::S3SecretKey => "S3_SECRET_KEY"@,
            SecretSlot::S3Bucket => "S3_BUCKET"@,
            SecretSlot::S3Endpoint => "S3_ENDPOINT"@,
        }
    }

    /// The name under which the dashboard stores this secret.
    pub fn key(&self) -> (res: &'static str)
        ensures
            res@ == self.key_text(),
    {
        match self {
            SecretSlot::OpenaiApiKey => "OPENAI_API_KEY",
            SecretSlot::S3Region => "S3_REGION",
            SecretSlot::S3AccessKey => "S3_ACCESS_KEY",
            SecretSlot::S3SecretKey => "S3_SECRET_KEY",
            SecretSlot::S3Bucket => "S3_BUCKET",
            SecretSlot::S3Endpoint => "S3_ENDPOINT",
        }
    }
}

impl Config {
    /// The setting a secret slot fills.
    pub open spec fn slot_value(self, slot: SecretSlot) -> Seq<char> {
        match slot {
            SecretSlot::OpenaiApiKey => self.openai_api_key@,
            SecretSlot::S3Region => self.s3_region@,
            SecretSlot::S3AccessKey => self.s3_access_key@,
            SecretSlot::S3SecretKey => self.s3_secret_key@,
            SecretSlot::S3Bucket => self.s3_bucket@,
            SecretSlot::S3Endpoint => self.s3_endpoint@,
        }
    }

    /// The slots still to be fetched, in the order they are asked for: none
    /// when no dashboard is configured, else each slot left empty.
    pub open spec fn pending(self) -> Seq<SecretSlot> {
        if self.dashboard_url@.len() == 0 {
            Seq::empty()
        } else {
            self.pending_from(0)
        }
    }

    pub open spec fn slot_at(k: int) -> SecretSlot {
        if k == 0 {
            SecretSlot::OpenaiApiKey
        } else if k == 1 {
            SecretSlot::S3Region
        } else if k == 2 {
            SecretSlot::S3AccessKey
        } else if k == 3 {
            SecretSlot::S3SecretKey
        } else if k == 4 {
            SecretSlot::S3Bucket
        } else {
            SecretSlot::S3Endpoint
        }
    }

    /// The empty slots among the `k`-th and those after it.
    pub open spec fn pending_from(self, k: int) -> Seq<SecretSlot>
        decreases 6 - k,
    {
        if k < 0 || k >= 6 {
            Seq::empty()
        } else {
            let here = if self.slot_value(Self::slot_at(k)).len() == 0 {
                seq![Self::slot_at(k)]
            } else {
                Seq::empty()
            };
            here + self.pending_from(k + 1)
        }
    }

    /// The settings given the environment; `DATABASE_URL` must be set.
    pub fn from_env_vars(env: &KbEnv) -> (res: Config)
        requires
            env.database_url is Some,
        ensures
            res.database_url@ == or_default(env.database_url, Seq::empty()),
            res.listen_addr@ == kb_listen_addr_of(env.kb_listen_addr, env.port),
            res.static_dir@ == or_default(env.kb_static_dir, "static"@),
            res.agent_secret@ == or_default(env.agent_secret, Seq::empty()),
            res.dashboard_url@ == or_default(env.dashboard_url, "http://localhost:8080"@),
            res.openai_api_key@ == or_default(env.openai_api_key, Seq::empty()),
            res.openai_model@ == or_default(env.openai_model, "gpt-5.4"@),
            res.s3_region@ == or_default(env.s3_region, "nyc3"@),
            res.s3_access_key@ == or_default(env.s3_access_key, Seq::empty()),
            res.s3_secret_key@ == or_default(env.s3_secret_key, Seq::empty()),
            res.s3_bucket@ == or_default(env.s3_bucket, "knowledgebase-docs"@),
            res.s3_endpoint@ == or_default(env.s3_endpoint, Seq::empty()),
    {
        let listen_addr = match &env.kb_listen_addr {
            Some(a) => a.clone(),
            None => {
                let port = text_or(&env.port, "4001");
                string_of(&concat(&chars_of("0.0.0.0:"), &chars_of(port.as_str())))
            },
        };
        proof {
            reveal_strlit("");
        }
        Config {
            database_url: text_or(&env.database_url, ""),
            listen_addr,
            static_dir: text_or(&env.kb_static_dir, "static"),
            agent_secret: text_or(&env.agent_secret, ""),
            dashboard_url: text_or(&env.dashboard_url, "http://localhost:8080"),
            openai_api_key: text_or(&env.openai_api_key, ""),
            openai_model: text_or(&env.openai_model, "gpt-5.4"),
            s3_region: text_or(&env.s3_region, "nyc3"),
            s3_access_key: text_or(&env.s3_access_key, ""),
            s3_secret_key: text_or(&env.s3_secret_key, ""),
            s3_bucket: text_or(&env.s3_bucket, "knowledgebase-docs"),
            s3_endpoint: text_or(&env.s3_endpoint, ""),
        }
    }

    /// Storage settings when both S3 keys are present, else `None` (upload
    /// and indexing are then disabled).  An empty endpoint means the
    /// provider's default.
    pub fn s3_config(&self) -> (res: Option<S3Config>)
        ensures
            res is None <==> (self.s3_access_key@.len() == 0 || self.s3_secret_key@.len() == 0),
            res matches Some(c) ==> {
                &&& c.region@ == self.s3_region@
                &&& c.access_key@ == self.s3_access_key@
                &&& c.secret_key@ == self.s3_secret_key@
                &&& c.bucket@ == self.s3_bucket@
                &&& opt_view(c.endpoint) == if self.s3_endpoint@.len() == 0 {
                    None
                } else {
                    Some(self.s3_endpoint@)
                }
            },
    {
        if self.s3_access_key.as_str().is_empty() || self.s3_secret_key.as_str().is_empty() {
            return None;
        }
        let endpoint = if self.s3_endpoint.as_str().is_empty() {
            None
        } else {
            Some(self.s3_endpoint.clone())
        };
        Some(
            S3Config {
                region: self.s3_region.clone(),
                access_key: self.s3_access_key.clone(),
                secret_key: self.s3_secret_key.clone(),
                bucket: self.s3_bucket.clone(),
                endpoint,
            },
        )
    }

    fn slot_numbered(k: usize) -> (res: SecretSlot)
        ensures
            res == Self::slot_at(k as int),
    {
        if k == 0 {
            SecretSlot::OpenaiApiKey
        } else if k == 1 {
            SecretSlot::S3Region
        } else if k == 2 {
            SecretSlot::S3AccessKey
        } else if k == 3 {
            SecretSlot::S3SecretKey
        } else if k == 4 {
            SecretSlot::S3Bucket
        } else {
            SecretSlot::S3Endpoint
        }
    }

    fn slot_is_empty(&self, slot: SecretSlot) -> (res: bool)
        ensures
            res == (self.slot_value(slot).len() == 0),
    {
        match slot {
            SecretSlot::OpenaiApiKey => self.openai_api_key.as_str().is_empty(),
            SecretSlot::S3Region => self.s3_region.as_str().is_empty(),
            SecretSlot::S3AccessKey => self.s3_access_key.as_str().is_empty(),
            SecretSlot::S3SecretKey => self.s3_secret_key.as_str().is_empty(),
            SecretSlot::S3Bucket => self.s3_bucket.as_str().is_empty(),
            SecretSlot::S3Endpoint => self.s3_endpoint.as_str().is_empty(),
        }
    }

    /// The secrets to ask the dashboard for, in order: none without a
    /// dashboard URL, else every slot the environment left empty.
    pub fn pending_secrets(&self) -> (res: Vec<SecretSlot>)
        ensures
            res@ == self.pending(),
    {
        let mut res: Vec<SecretSlot> = Vec::new();
        if self.dashboard_url.as_str().is_empty() {
            return res;
        }
        let mut k: usize = 6;
        while k > 0
            invariant
                k <= 6,
                res@ == self.pending_from(k as int),
            decreases k,
        {
            k = k - 1;
            let slot = Self::slot_numbered(k);
            if self.slot_is_empty(slot) {
                let mut front = vec![slot];
                front.append(&mut res);
                res = front;
            }
        }
        res
    }

    /// Takes a value fetched for `slot`: an empty value is ignored, a
    /// non-empty one becomes the slot's setting.  Nothing else changes.
    pub fn fill_secret(&mut self, slot: SecretSlot, value: String)
        ensures
            value@.len() == 0 ==> *final(self) == *old(self),
            value@.len() > 0 ==> final(self).slot_value(slot) == value@,
            forall|other: SecretSlot|
                other != slot ==> #[trigger] final(self).slot_value(other) == old(
                    self,
                ).slot_value(other),
            final(self).database_url == old(self).database_url,
            final(self).listen_addr == old(self).listen_addr,
            final(self).static_dir == old(self).static_dir,
            final(self).agent_secret == old(self).agent_secret,
            final(self).dashboard_url == old(self).dashboard_url,
            final(self).openai_model == old(self).openai_model,
    {
        if value.as_str().is_empty() {
            return;
        }
        match slot {
            SecretSlot::OpenaiApiKey => self.openai_api_key = value,
            SecretSlot::S3Region => self.s3_region = value,
            SecretSlot::S3AccessKey => self.s3_access_key = value,
            SecretSlot::S3SecretKey => self.s3_secret_key = value,
            SecretSlot::S3Bucket => self.s3_bucket = value,
            SecretSlot::S3Endpoint => self.s3_endpoint = value,
        }
    }
}

/// The position of a slot in the order the slots are asked for.
pub open spec fn slot_index(slot: SecretSlot) -> int {
    match slot {
        SecretSlot::OpenaiApiKey => 0,
        SecretSlot::S3Region => 1,
        SecretSlot::S3AccessKey => 2,
        SecretSlot::S3SecretKey => 3,
        SecretSlot::S3Bucket => 4,
        SecretSlot::S3Endpoint => 5,
    }
}

proof fn lemma_pending_from_contains(cfg: Config, k: int, slot: SecretSlot)
    requires
        0 <= k <= 6,
    ensures
        cfg.pending_from(k).contains(slot) <==> (slot_index(slot) >= k && cfg.slot_value(slot).len()
            == 0),
    decreases 6 - k,
{
    if k < 6 {
        lemma_pending_from_contains(cfg, k + 1, slot);
        let s = Config::slot_at(k);
        let here = if cfg.slot_value(s).len() == 0 {
            seq![s]
        } else {
            Seq::empty()
        };
        let rest = cfg.pending_from(k + 1);
        assert(cfg.pending_from(k) == here + rest);
        if rest.contains(slot) {
            let j = choose|j: int| 0 <= j < rest.len() && rest[j] == slot;
            assert((here + rest)[here.len() + j] == slot);
        }
        if here.contains(slot) {
            assert((here + rest)[0] == slot);
        }
        if (here + rest).contains(slot) {
            let j = choose|j: int| 0 <= j < (here + rest).len() && (here + rest)[j] == slot;
            if j >= here.len() {
                assert(rest[j - here.len()] == slot);
            }
        }
    }
}

/// Resolving secrets never overwrites one the environment set: every slot
/// asked for is empty, and, with a dashboard configured, every empty slot is
/// asked for.
pub proof fn lemma_pending_slots_are_empty(cfg: Config)
    ensures
        forall|slot: SecretSlot| #[trigger]
            cfg.pending().contains(slot) ==> cfg.slot_value(slot).len() == 0,
        cfg.dashboard_url@.len() == 0 ==> cfg.pending().len() == 0,
        cfg.dashboard_url@.len() > 0 ==> forall|slot: SecretSlot|
            cfg.slot_value(slot).len() == 0 <==> #[trigger] cfg.pending().contains(slot),
{
    assert forall|slot: SecretSlot| #[trigger]
        cfg.pending().contains(slot) implies cfg.slot_value(slot).len() == 0 by {
        if cfg.dashboard_url@.len() > 0 {
            lemma_pending_from_contains(cfg, 0, slot);
        }
    }
    if cfg.dashboard_url@.len() > 0 {
        assert forall|slot: SecretSlot|
            cfg.slot_value(slot).len() == 0 <==> #[trigger] cfg.pending().contains(slot) by {
            lemma_pending_from_contains(cfg, 0, slot);
        }
    }
}

} // verus!
