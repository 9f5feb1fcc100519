//! The agent registry: registration with its per-owner name check, lookup
//! by key and id, listing, disabling and updating.

use vstd::prelude::*;
use vstd::string::*;
use vstd::utf8::encode_utf8;
use crate::agents::secret::{hash_secret, secret_hash};
use crate::agents::types::{
    Agent, AgentType, ProviderPricing, ProviderProfile, RegisterRequest, RegisterResponse,
    UpdateAgentRequest,
};
use crate::error::GaggleError;
use crate::seqs::{keep, lemma_keep_take_step, lemma_take_full};
use crate::sys::{credential_shaped, is_uuid_hyphenated, now_seconds, random_credential, random_uuid, MAX_CLOCK_SECONDS};
use crate::text::{clone_opt_string, opt_string_view, str_eq};

verus! {

/// The mathematical view of an agent.
pub struct AgentRecord {
    pub id: Seq<char>,
    pub agent_type: AgentType,
    pub name: Seq<char>,
    pub api_key: Seq<char>,
    pub api_secret_hash: Seq<char>,
    pub public_key: Option<Seq<char>>,
    pub metadata: Seq<char>,
    pub created_at: i64,
    pub user_id: Option<Seq<char>>,
    pub disabled_at: Option<i64>,
    pub organization: Option<Seq<char>>,
    pub callback_url: Option<Seq<char>>,
}

/// The view of an agent.
pub open spec fn agent_view(a: Agent) -> AgentRecord {
    AgentRecord {
        id: a.id@,
        agent_type: a.agent_type,
        name: a.name@,
        api_key: a.api_key@,
        api_secret_hash: a.api_secret_hash@,
        public_key: opt_string_view(a.public_key),
        metadata: a.metadata@,
        created_at: a.created_at,
        user_id: opt_string_view(a.user_id),
        disabled_at: a.disabled_at,
        organization: opt_string_view(a.organization),
        callback_url: opt_string_view(a.callback_url),
    }
}

fn dup_agent(a: &Agent) -> (r: Agent)
    ensures
        agent_view(r) == agent_view(*a),
{
    Agent {
        id: a.id.clone(),
        agent_type: a.agent_type,
        name: a.name.clone(),
        api_key: a.api_key.clone(),
        api_secret_hash: a.api_secret_hash.clone(),
        public_key: clone_opt_string(&a.public_key),
        metadata: a.metadata.clone(),
        created_at: a.created_at,
        user_id: clone_opt_string(&a.user_id),
        disabled_at: a.disabled_at,
        organization: clone_opt_string(&a.organization),
        callback_url: clone_opt_string(&a.callback_url),
    }
}

/// Agent ids are distinct, and so are their keys; every provider profile
/// belongs to an agent.
pub open spec fn registry_wf(ags: Seq<AgentRecord>, providers: Seq<Seq<char>>) -> bool {
    &&& forall|i: int, j: int| 0 <= i < j < ags.len() ==> (#[trigger] ags[i]).id != (#[trigger] ags[j]).id
    &&& forall|i: int, j: int|
        0 <= i < j < ags.len() ==> (#[trigger] ags[i]).api_key != (#[trigger] ags[j]).api_key
    &&& forall|k: int| 0 <= k < providers.len() ==> has_agent(ags, #[trigger] providers[k])
}

/// Whether an agent with id `id` exists.
pub open spec fn has_agent(ags: Seq<AgentRecord>, id: Seq<char>) -> bool {
    exists|k: int| 0 <= k < ags.len() && ags[k].id == id
}

/// The agent with id `id` (meaningful when it exists).
pub open spec fn agent_with_id(ags: Seq<AgentRecord>, id: Seq<char>) -> AgentRecord {
    ags[choose|k: int| 0 <= k < ags.len() && ags[k].id == id]
}

/// Whether an agent holds key `key`.
pub open spec fn has_key(ags: Seq<AgentRecord>, key: Seq<char>) -> bool {
    exists|k: int| 0 <= k < ags.len() && ags[k].api_key == key
}

/// The agent that holds key `key` (meaningful when one does).
pub open spec fn agent_with_key(ags: Seq<AgentRecord>, key: Seq<char>) -> AgentRecord {
    ags[choose|k: int| 0 <= k < ags.len() && ags[k].api_key == key]
}

/// An enabled agent of owner `user` with name `name`.
pub open spec fn is_twin(a: AgentRecord, name: Seq<char>, user: Seq<char>) -> bool {
    a.name == name && a.user_id == Some(user) && a.disabled_at is None
}

/// Whether owner `user` already has an enabled agent named `name`.
pub open spec fn has_twin(ags: Seq<AgentRecord>, name: Seq<char>, user: Seq<char>) -> bool {
    exists|k: int| 0 <= k < ags.len() && is_twin(ags[k], name, user)
}

/// The earliest-registered such agent (meaningful when there is one).
pub open spec fn first_twin(ags: Seq<AgentRecord>, name: Seq<char>, user: Seq<char>) -> AgentRecord {
    ags[choose|k: int|
        0 <= k < ags.len() && is_twin(ags[k], name, user) && forall|j: int|
            0 <= j < k ==> !is_twin(#[trigger] ags[j], name, user)]
}

/// The record of a newly registered agent.
pub open spec fn new_agent(
    req: RegisterRequest,
    user: Option<Seq<char>>,
    id: Seq<char>,
    key: Seq<char>,
    secret: Seq<char>,
    now: i64,
) -> AgentRecord {
    AgentRecord {
        id,
        agent_type: req.agent_type,
        name: req.name@,
        api_key: key,
        api_secret_hash: secret_hash(encode_utf8(secret)),
        public_key: opt_string_view(req.public_key),
        metadata: req.metadata@,
        created_at: now,
        user_id: user,
        disabled_at: None,
        organization: opt_string_view(req.organization),
        callback_url: opt_string_view(req.callback_url),
    }
}

/// Whether a registration answer shows the agent `a` with secret `secret`.
pub open spec fn response_is(r: RegisterResponse, a: AgentRecord, secret: Seq<char>) -> bool {
    &&& r.id@ == a.id
    &&& r.agent_type == a.agent_type
    &&& r.name@ == a.name
    &&& r.api_key@ == a.api_key
    &&& r.api_secret@ == secret
    &&& r.created_at == a.created_at
    &&& opt_string_view(r.organization) == a.organization
}

/// Whether `owner` is given and already has an enabled agent named `name`.
pub open spec fn has_owner_twin(ags: Seq<AgentRecord>, name: Seq<char>, owner: Option<String>) -> bool {
    match owner {
        Some(u) => has_twin(ags, name, u@),
        None => false,
    }
}

/// Ordered by creation, newest first; equal times keep their order.
pub open spec fn insert_newest(s: Seq<AgentRecord>, x: AgentRecord) -> Seq<AgentRecord>
    decreases s.len(),
{
    if s.len() == 0 {
        seq![x]
    } else if s[0].created_at < x.created_at {
        seq![x] + s
    } else {
        seq![s[0]] + insert_newest(s.drop_first(), x)
    }
}

/// The agents newest first; agents created at the same time keep their order.
pub open spec fn newest_first(s: Seq<AgentRecord>) -> Seq<AgentRecord>
    decreases s.len(),
{
    if s.len() == 0 {
        Seq::empty()
    } else {
        insert_newest(newest_first(s.drop_last()), s.last())
    }
}

proof fn lemma_insert_newest_at(s: Seq<AgentRecord>, x: AgentRecord, j: int)
    requires
        0 <= j <= s.len(),
        forall|k: int| 0 <= k < j ==> s[k].created_at >= x.created_at,
        j < s.len() ==> s[j].created_at < x.created_at,
    ensures
        insert_newest(s, x) == s.insert(j, x),
    decreases s.len(),
{
    if s.len() == 0 {
        assert(s.insert(j, x) =~= seq![x]);
    } else if j == 0 {
        assert(s.insert(0, x) =~= seq![x] + s);
    } else {
        let t = s.drop_first();
        assert forall|k: int| 0 <= k < j - 1 implies t[k].created_at >= x.created_at by {
            assert(t[k] == s[k + 1]);
        }
        if j < s.len() {
            assert(t[j - 1] == s[j]);
        }
        lemma_insert_newest_at(t, x, j - 1);
        assert(s.insert(j, x) =~= seq![s[0]] + t.insert(j - 1, x));
    }
}

/// Enabled agents.
pub open spec fn enabled() -> spec_fn(AgentRecord) -> bool {
    |a: AgentRecord| a.disabled_at is None
}

/// Enabled agents of owner `user`.
pub open spec fn enabled_of(user: Seq<char>) -> spec_fn(AgentRecord) -> bool {
    |a: AgentRecord| a.user_id == Some(user) && a.disabled_at is None
}

/// The agent after the changes of an update request.
pub open spec fn updated(a: AgentRecord, req: UpdateAgentRequest) -> AgentRecord {
    AgentRecord {
        name: match req.name {
            Some(n) => n@,
            None => a.name,
        },
        metadata: match req.metadata {
            Some(m) => m@,
            None => a.metadata,
        },
        organization: match req.organization {
            Some(o) => Some(o@),
            None => a.organization,
        },
        callback_url: match req.callback_url {
            Some(c) => Some(c@),
            None => a.callback_url,
        },
        ..a
    }
}

/// The agent after it is disabled at `now`.
pub open spec fn disabled(a: AgentRecord, now: i64) -> AgentRecord {
    AgentRecord { disabled_at: Some(now), ..a }
}

/// Whether a list of handed-out agents shows exactly `s`, in order.
pub open spec fn agents_are(out: Seq<Agent>, s: Seq<AgentRecord>) -> bool {
    &&& out.len() == s.len()
    &&& forall|i: int| 0 <= i < out.len() ==> agent_view(#[trigger] out[i]) == s[i]
}

/// The registry of agents.
pub struct AgentRegistry {
    agents: Vec<Agent>,
    providers: Vec<String>,
}

impl AgentRegistry {
    /// The agents, in the order they registered.
    pub closed spec fn agents(&self) -> Seq<AgentRecord> {
        self.agents@.map_values(|a: Agent| agent_view(a))
    }

    /// The agents that have a provider profile.
    pub closed spec fn providers(&self) -> Seq<Seq<char>> {
        self.providers@.map_values(|s: String| s@)
    }

    pub open spec fn wf(&self) -> bool {
        registry_wf(self.agents(), self.providers())
    }

    /// An empty registry.
    pub fn new() -> (r: AgentRegistry)
        ensures
            r.wf(),
            r.agents() == Seq::<AgentRecord>::empty(),
            r.providers() == Seq::<Seq<char>>::empty(),
    {
        let r = AgentRegistry { agents: Vec::new(), providers: Vec::new() };
        proof {
            assert(r.agents() =~= Seq::<AgentRecord>::empty());
            assert(r.providers() =~= Seq::<Seq<char>>::empty());
        }
        r
    }

    fn find_id(&self, id: &str) -> (r: Option<usize>)
        requires
            self.wf(),
        ensures
            r is Some <==> has_agent(self.agents(), id@),
            r matches Some(k) ==> k < self.agents().len() && self.agents()[k as int] == agent_with_id(
                self.agents(),
                id@,
            ),
    {
        let ghost ags = self.agents();
        let mut i: usize = 0;
        while i < self.agents.len()
            invariant
                self.wf(),
                ags == self.agents(),
                0 <= i <= self.agents@.len(),
                ags.len() == self.agents@.len(),
                forall|j: int| 0 <= j < i ==> ags[j].id != id@,
            decreases self.agents@.len() - i,
        {
            assert(ags[i as int] == agent_view(self.agents@[i as int]));
            if str_eq(self.agents[i].id.as_str(), id) {
                proof {
                    let k = choose|k: int| 0 <= k < ags.len() && ags[k].id == id@;
                    if k < i {
                    } else if k > i {
                        assert(ags[i as int].id != ags[k].id);
                    }
                }
                return Some(i);
            }
            i = i + 1;
        }
        None
    }

    fn find_key(&self, key: &str) -> (r: Option<usize>)
        requires
            self.wf(),
        ensures
            r is Some <==> has_key(self.agents(), key@),
            r matches Some(k) ==> k < self.agents().len() && self.agents()[k as int] == agent_with_key(
                self.agents(),
                key@,
            ),
    {
        let ghost ags = self.agents();
        let mut i: usize = 0;
        while i < self.agents.len()
            invariant
                self.wf(),
                ags == self.agents(),
                0 <= i <= self.agents@.len(),
                ags.len() == self.agents@.len(),
                forall|j: int| 0 <= j < i ==> ags[j].api_key != key@,
            decreases self.agents@.len() - i,
        {
            assert(ags[i as int] == agent_view(self.agents@[i as int]));
            if str_eq(self.agents[i].api_key.as_str(), key) {
                proof {
                    let k = choose|k: int| 0 <= k < ags.len() && ags[k].api_key == key@;
                    if k < i {
                    } else if k > i {
                        assert(ags[i as int].api_key != ags[k].api_key);
                    }
                }
                return Some(i);
            }
            i = i + 1;
        }
        None
    }

    fn find_twin(&self, name: &str, user: &str) -> (r: Option<usize>)
        ensures
            r is Some <==> has_twin(self.agents(), name@, user@),
            r matches Some(k) ==> k < self.agents().len() && self.agents()[k as int] == first_twin(
                self.agents(),
                name@,
                user@,
            ),
    {
        let ghost ags = self.agents();
        let mut i: usize = 0;
        while i < self.agents.len()
            invariant
                ags == self.agents(),
                0 <= i <= self.agents@.len(),
                ags.len() == self.agents@.len(),
                forall|j: int| 0 <= j < i ==> !is_twin(#[trigger] ags[j], name@, user@),
            decreases self.agents@.len() - i,
        {
            assert(ags[i as int] == agent_view(self.agents@[i as int]));
            let a = &self.agents[i];
            let owned = match &a.user_id {
                Some(u) => str_eq(u.as_str(), user),
                None => false,
            };
            if owned && str_eq(a.name.as_str(), name) && a.disabled_at.is_none() {
                proof {
                    assert(is_twin(ags[i as int], name@, user@));
                    let k = choose|k: int|
                        0 <= k < ags.len() && is_twin(ags[k], name@, user@) && forall|j: int|
                            0 <= j < k ==> !is_twin(#[trigger] ags[j], name@, user@);
                    if k < i {
                    } else if k > i {
                        assert(!is_twin(ags[i as int], name@, user@));
                    }
                }
                return Some(i);
            }
            i = i + 1;
        }
        None
    }

    /// Registers an agent with the given id, key and secret, at `now`, for
    /// owner `user_id`. When that owner already has an enabled agent of the
    /// same name, nothing is registered and that agent is answered, without
    /// its secret. Otherwise an id or key that is taken is a DatabaseError;
    /// else the agent is added, with a provider profile if it is a provider,
    /// and answered with its secret.
    pub fn register_with(
        &mut self,
        req: RegisterRequest,
        user_id: Option<String>,
        id: String,
        api_key: String,
        api_secret: String,
        now: i64,
    ) -> (r: Result<RegisterResponse, GaggleError>)
        requires
            old(self).wf(),
        ensures
            final(self).wf(),
            ({
                let twin = match user_id {
                    Some(u) => has_twin(old(self).agents(), req.name@, u@),
                    None => false,
                };
                &&& twin ==> r is Ok && response_is(
                    r->Ok_0,
                    first_twin(old(self).agents(), req.name@, user_id->Some_0@),
                    Seq::empty(),
                ) && final(self).agents() == old(self).agents() && final(self).providers() == old(
                    self,
                ).providers()
                &&& !twin && (has_agent(old(self).agents(), id@) || has_key(old(self).agents(), api_key@))
                    ==> r is Err && r->Err_0 is DatabaseError && final(self).agents() == old(self).agents()
                    && final(self).providers() == old(self).providers()
                &&& !twin && !has_agent(old(self).agents(), id@) && !has_key(old(self).agents(), api_key@)
                    ==> {
                    let a = new_agent(req, opt_string_view(user_id), id@, api_key@, api_secret@, now);
                    &&& r is Ok && response_is(r->Ok_0, a, api_secret@)
                    &&& final(self).agents() == old(self).agents().push(a)
                    &&& final(self).providers() == if req.agent_type == AgentType::Provider {
                        old(self).providers().push(id@)
                    } else {
                        old(self).providers()
                    }
                }
            }),
    {
        if let Some(u) = &user_id {
            if let Some(k) = self.find_twin(req.name.as_str(), u.as_str()) {
                let a = &self.agents[k];
                proof {
                    assert(self.agents()[k as int] == agent_view(self.agents@[k as int]));
                }
                return Ok(RegisterResponse {
                    id: a.id.clone(),
                    agent_type: a.agent_type,
                    name: a.name.clone(),
                    api_key: a.api_key.clone(),
                    api_secret: String::new(),
                    created_at: a.created_at,
                    organization: clone_opt_string(&a.organization),
                });
            }
        }
        if self.find_id(id.as_str()).is_some() {
            return Err(GaggleError::DatabaseError(String::from_str("UNIQUE constraint failed: agents.id")));
        }
        if self.find_key(api_key.as_str()).is_some() {
            return Err(GaggleError::DatabaseError(String::from_str("UNIQUE constraint failed: agents.api_key")));
        }
        let ghost old_ags = self.agents();
        let ghost old_prov = self.providers();
        let secret_digest = hash_secret(api_secret.as_str());
        let agent = Agent {
            id: id.clone(),
            agent_type: req.agent_type,
            name: req.name.clone(),
            api_key: api_key.clone(),
            api_secret_hash: secret_digest,
            public_key: clone_opt_string(&req.public_key),
            metadata: req.metadata.clone(),
            created_at: now,
            user_id: clone_opt_string(&user_id),
            disabled_at: None,
            organization: clone_opt_string(&req.organization),
            callback_url: clone_opt_string(&req.callback_url),
        };
        let ghost a = agent_view(agent);
        self.agents.push(agent);
        if req.agent_type == AgentType::Provider {
            self.providers.push(id.clone());
            proof {
                assert(self.providers() =~= old_prov.push(id@));
            }
        }
        proof {
            let ags = self.agents();
            assert(ags =~= old_ags.push(a));
            assert forall|i: int, j: int| 0 <= i < j < ags.len() implies (#[trigger] ags[i]).id != (#[trigger] ags[j]).id
                && ags[i].api_key != ags[j].api_key by {
                if j == ags.len() - 1 {
                    assert(ags[i] == old_ags[i]);
                } else {
                    assert(ags[i] == old_ags[i] && ags[j] == old_ags[j]);
                }
            }
            let prov = self.providers();
            assert forall|k: int| 0 <= k < prov.len() implies has_agent(ags, #[trigger] prov[k]) by {
                if k < old_prov.len() {
                    assert(prov[k] == old_prov[k]);
                    let q = choose|q: int| 0 <= q < old_ags.len() && old_ags[q].id == old_prov[k];
                    assert(ags[q] == old_ags[q]);
                } else {
                    assert(ags[ags.len() - 1].id == id@);
                }
            }
        }
        Ok(RegisterResponse {
            id,
            agent_type: req.agent_type,
            name: req.name,
            api_key,
            api_secret,
            created_at: now,
            organization: req.organization,
        })
    }

    /// Registers an agent now, with a random (hyphenated UUID) id, a key
    /// `gag_` and a secret `gas_` each followed by 32 random lowercase hex
    /// digits; see `register_with`. An owner's enabled agent of the same name
    /// is answered as it is. Otherwise a fresh id or key can clash with a
    /// stored one only when some stored agent has an id or key of those
    /// shapes; the clash is a DatabaseError that changes nothing.
    pub fn register(&mut self, req: RegisterRequest, user_id: Option<String>) -> (r: Result<
        RegisterResponse,
        GaggleError,
    >)
        requires
            old(self).wf(),
        ensures
            final(self).wf(),
            has_owner_twin(old(self).agents(), req.name@, user_id) ==> r is Ok && response_is(
                r->Ok_0,
                first_twin(old(self).agents(), req.name@, user_id->Some_0@),
                Seq::empty(),
            ) && final(self).agents() == old(self).agents() && final(self).providers() == old(self).providers(),
            !has_owner_twin(old(self).agents(), req.name@, user_id) && r is Err ==> r->Err_0 is DatabaseError
                && final(self).agents() == old(self).agents() && final(self).providers() == old(self).providers(),
            !has_owner_twin(old(self).agents(), req.name@, user_id) && r is Ok ==> {
                &&& is_uuid_hyphenated(r->Ok_0.id@)
                &&& credential_shaped(r->Ok_0.api_key@, "gag_"@)
                &&& credential_shaped(r->Ok_0.api_secret@, "gas_"@)
                &&& exists|now: i64|
                    {
                        &&& 0 <= now <= MAX_CLOCK_SECONDS
                        &&& response_is(
                            r->Ok_0,
                            #[trigger] new_agent(
                                req,
                                opt_string_view(user_id),
                                r->Ok_0.id@,
                                r->Ok_0.api_key@,
                                r->Ok_0.api_secret@,
                                now,
                            ),
                            r->Ok_0.api_secret@,
                        )
                        &&& final(self).agents() == old(self).agents().push(
                            new_agent(req, opt_string_view(user_id), r->Ok_0.id@, r->Ok_0.api_key@, r->Ok_0.api_secret@, now),
                        )
                    }
                &&& final(self).providers() == if req.agent_type == AgentType::Provider {
                    old(self).providers().push(r->Ok_0.id@)
                } else {
                    old(self).providers()
                }
            },
            !has_owner_twin(old(self).agents(), req.name@, user_id) && (forall|k: int|
                0 <= k < old(self).agents().len() ==> !is_uuid_hyphenated(#[trigger] old(self).agents()[k].id)
                    && !credential_shaped(old(self).agents()[k].api_key, "gag_"@)) ==> r is Ok,
    {
        let now = now_seconds();
        let id = random_uuid();
        let key = random_credential("gag_");
        let secret = random_credential("gas_");
        proof {
            reveal_strlit("gag_");
            reveal_strlit("gas_");
            let ags = self.agents();
            if forall|k: int|
                0 <= k < ags.len() ==> !is_uuid_hyphenated(#[trigger] ags[k].id) && !credential_shaped(
                    ags[k].api_key,
                    "gag_"@,
                ) {
                if has_agent(ags, id@) {
                    let k = choose|k: int| 0 <= k < ags.len() && ags[k].id == id@;
                    assert(!is_uuid_hyphenated(ags[k].id));
                }
                if has_key(ags, key@) {
                    let k = choose|k: int| 0 <= k < ags.len() && ags[k].api_key == key@;
                    assert(!credential_shaped(ags[k].api_key, "gag_"@));
                }
            }
        }
        self.register_with(req, user_id, id, key, secret, now)
    }

    /// The agent that holds key `api_key`, if any.
    pub fn get_by_api_key(&self, api_key: &str) -> (r: Result<Option<Agent>, GaggleError>)
        requires
            self.wf(),
        ensures
            r matches Ok(o) && (o is Some <==> has_key(self.agents(), api_key@)),
            r matches Ok(Some(a)) ==> agent_view(a) == agent_with_key(self.agents(), api_key@),
    {
        match self.find_key(api_key) {
            Some(k) => {
                proof {
                    assert(self.agents()[k as int] == agent_view(self.agents@[k as int]));
                }
                Ok(Some(dup_agent(&self.agents[k])))
            },
            None => Ok(None),
        }
    }

    /// The agent with id `id`, if any.
    pub fn get_by_id(&self, id: &str) -> (r: Result<Option<Agent>, GaggleError>)
        requires
            self.wf(),
        ensures
            r matches Ok(o) && (o is Some <==> has_agent(self.agents(), id@)),
            r matches Ok(Some(a)) ==> agent_view(a) == agent_with_id(self.agents(), id@),
    {
        match self.find_id(id) {
            Some(k) => {
                proof {
                    assert(self.agents()[k as int] == agent_view(self.agents@[k as int]));
                }
                Ok(Some(dup_agent(&self.agents[k])))
            },
            None => Ok(None),
        }
    }

    /// The provider profile of agent `agent_id`, if it has one: no team, no
    /// skills, and prices by negotiation, as registration makes it.
    pub fn get_provider_profile(&self, agent_id: &str) -> (r: Result<Option<ProviderProfile>, GaggleError>)
        ensures
            r matches Ok(o) && (o is Some <==> self.providers().contains(agent_id@)),
            r matches Ok(Some(p)) ==> p.agent_id@ == agent_id@ && p.team@.len() == 0 && p.skills@.len() == 0
                && p.pricing_model is Negotiated,
    {
        let ghost prov = self.providers();
        let mut i: usize = 0;
        while i < self.providers.len()
            invariant
                prov == self.providers(),
                0 <= i <= self.providers@.len(),
                prov.len() == self.providers@.len(),
                forall|j: int| 0 <= j < i ==> prov[j] != agent_id@,
            decreases self.providers@.len() - i,
        {
            assert(prov[i as int] == self.providers@[i as int]@);
            if str_eq(self.providers[i].as_str(), agent_id) {
                return Ok(
                    Some(
                        ProviderProfile {
                            agent_id: self.providers[i].clone(),
                            team: Vec::new(),
                            skills: Vec::new(),
                            pricing_model: ProviderPricing::Negotiated,
                        },
                    ),
                );
            }
            i = i + 1;
        }
        Ok(None)
    }

    fn select_newest_first(&self, p: Ghost<spec_fn(AgentRecord) -> bool>, user: Option<&str>) -> (r: Vec<Agent>)
        requires
            p@ == match user {
                Some(u) => enabled_of(u@),
                None => enabled(),
            },
        ensures
            agents_are(r@, newest_first(keep(self.agents(), p@))),
    {
        let ghost ags = self.agents();
        let mut out: Vec<Agent> = Vec::new();
        let mut i: usize = 0;
        while i < self.agents.len()
            invariant
                0 <= i <= self.agents@.len(),
                ags == self.agents(),
                ags.len() == self.agents@.len(),
                p@ == match user {
                    Some(u) => enabled_of(u@),
                    None => enabled(),
                },
                agents_are(out@, newest_first(keep(ags.take(i as int), p@))),
            decreases self.agents@.len() - i,
        {
            proof {
                assert(ags[i as int] == agent_view(self.agents@[i as int]));
                lemma_keep_take_step(ags, i as int, p@);
            }
            let a = &self.agents[i];
            let selected = a.disabled_at.is_none() && match user {
                Some(u) => match &a.user_id {
                    Some(owner) => str_eq(owner.as_str(), u),
                    None => false,
                },
                None => true,
            };
            if selected {
                let ghost sorted = newest_first(keep(ags.take(i as int), p@));
                let ghost x = ags[i as int];
                let mut j: usize = 0;
                while j < out.len() && out[j].created_at >= a.created_at
                    invariant
                        0 <= j <= out@.len(),
                        out.len() == sorted.len(),
                        forall|k: int| 0 <= k < out.len() ==> (#[trigger] out@[k]).created_at == sorted[k].created_at,
                        x.created_at == a.created_at,
                        forall|k: int| 0 <= k < j ==> sorted[k].created_at >= x.created_at,
                    decreases out@.len() - j,
                {
                    assert(out@[j as int].created_at == agent_view(out@[j as int]).created_at);
                    j = j + 1;
                }
                proof {
                    lemma_insert_newest_at(sorted, x, j as int);
                    assert(keep(ags.take(i + 1), p@).drop_last() =~= keep(ags.take(i as int), p@));
                }
                let ghost before = out@;
                out.insert(j, dup_agent(a));
                proof {
                    let t = sorted.insert(j as int, x);
                    assert forall|k: int| 0 <= k < out.len() implies agent_view(#[trigger] out@[k]) == t[k] by {
                        if k < j {
                            assert(out@[k] == before[k]);
                        } else if k > j {
                            assert(out@[k] == before[k - 1]);
                        }
                    }
                }
            }
            i = i + 1;
        }
        proof {
            lemma_take_full(ags);
        }
        out
    }

    /// The enabled agents, newest first.
    pub fn list_agents(&self) -> (r: Result<Vec<Agent>, GaggleError>)
        ensures
            r matches Ok(v) && agents_are(v@, newest_first(keep(self.agents(), enabled()))),
    {
        Ok(self.select_newest_first(Ghost(enabled()), None))
    }

    /// The enabled agents of owner `user_id`, newest first.
    pub fn list_user_agents(&self, user_id: &str) -> (r: Result<Vec<Agent>, GaggleError>)
        ensures
            r matches Ok(v) && agents_are(v@, newest_first(keep(self.agents(), enabled_of(user_id@)))),
    {
        Ok(self.select_newest_first(Ghost(enabled_of(user_id@)), Some(user_id)))
    }

    /// The number of agents, disabled ones included.
    pub fn count(&self) -> (r: Result<usize, GaggleError>)
        ensures
            r matches Ok(n) && n == self.agents().len(),
    {
        Ok(self.agents.len())
    }

    /// Disables agent `agent_id` at `now`. A missing agent is NotFound and
    /// one already disabled is a ValidationError.
    pub fn disable_at(&mut self, agent_id: &str, now: i64) -> (r: Result<Agent, GaggleError>)
        requires
            old(self).wf(),
        ensures
            final(self).wf(),
            final(self).providers() == old(self).providers(),
            !has_agent(old(self).agents(), agent_id@) ==> r is Err && r->Err_0 is NotFound
                && final(self).agents() == old(self).agents(),
            has_agent(old(self).agents(), agent_id@) ==> {
                let a = agent_with_id(old(self).agents(), agent_id@);
                &&& a.disabled_at is Some ==> r is Err && r->Err_0 is ValidationError
                    && final(self).agents() == old(self).agents()
                &&& a.disabled_at is None ==> r is Ok && agent_view(r->Ok_0) == disabled(a, now) && final(self).agents() == old(self).agents().update(
                    index_of_id_spec(old(self).agents(), agent_id@),
                    disabled(a, now),
                )
            },
    {
        let k = match self.find_id(agent_id) {
            Some(k) => k,
            None => {
                let mut m = String::from_str("Agent not found: ");
                m.append(agent_id);
                return Err(GaggleError::NotFound(m));
            },
        };
        proof {
            assert(self.agents()[k as int] == agent_view(self.agents@[k as int]));
        }
        if self.agents[k].disabled_at.is_some() {
            return Err(GaggleError::ValidationError(String::from_str("Agent already disabled")));
        }
        let ghost old_ags = self.agents();
        let mut a = dup_agent(&self.agents[k]);
        a.disabled_at = Some(now);
        let out = dup_agent(&a);
        self.agents.set(k, a);
        proof {
            lemma_index_of_id(old_ags, agent_id@, k as int);
            assert(self.agents() =~= old_ags.update(k as int, agent_view(out)));
            lemma_update_keeps_registry_wf(old_ags, self.providers(), k as int, agent_view(out));
        }
        Ok(out)
    }

    /// Disables agent `agent_id` now; see `disable_at`.
    pub fn disable(&mut self, agent_id: &str) -> (r: Result<Agent, GaggleError>)
        requires
            old(self).wf(),
        ensures
            final(self).wf(),
            final(self).providers() == old(self).providers(),
            !has_agent(old(self).agents(), agent_id@) ==> r is Err && r->Err_0 is NotFound,
            has_agent(old(self).agents(), agent_id@) ==> {
                let a = agent_with_id(old(self).agents(), agent_id@);
                &&& a.disabled_at is Some ==> r is Err && r->Err_0 is ValidationError
                &&& a.disabled_at is None ==> r is Ok && exists|now: i64|
                    0 <= now <= MAX_CLOCK_SECONDS && agent_view(r->Ok_0) == #[trigger] disabled(a, now)
            },
            r is Err ==> final(self).agents() == old(self).agents(),
    {
        let now = now_seconds();
        self.disable_at(agent_id, now)
    }

    /// Applies an update to agent `agent_id`. A missing agent is NotFound and
    /// a disabled one a ValidationError; otherwise each field given replaces
    /// the current one.
    pub fn update(&mut self, agent_id: &str, req: &UpdateAgentRequest) -> (r: Result<Agent, GaggleError>)
        requires
            old(self).wf(),
        ensures
            final(self).wf(),
            final(self).providers() == old(self).providers(),
            !has_agent(old(self).agents(), agent_id@) ==> r is Err && r->Err_0 is NotFound
                && final(self).agents() == old(self).agents(),
            has_agent(old(self).agents(), agent_id@) ==> {
                let a = agent_with_id(old(self).agents(), agent_id@);
                &&& a.disabled_at is Some ==> r is Err && r->Err_0 is ValidationError
                    && final(self).agents() == old(self).agents()
                &&& a.disabled_at is None ==> r is Ok && agent_view(r->Ok_0) == updated(a, *req)
                    && final(self).agents() == old(self).agents().update(
                    index_of_id_spec(old(self).agents(), agent_id@),
                    updated(a, *req),
                )
            },
    {
        let k = match self.find_id(agent_id) {
            Some(k) => k,
            None => {
                let mut m = String::from_str("Agent not found: ");
                m.append(agent_id);
                return Err(GaggleError::NotFound(m));
            },
        };
        proof {
            assert(self.agents()[k as int] == agent_view(self.agents@[k as int]));
        }
        if self.agents[k].disabled_at.is_some() {
            return Err(GaggleError::ValidationError(String::from_str("Agent is disabled")));
        }
        let ghost old_ags = self.agents();
        let mut a = dup_agent(&self.agents[k]);
        if let Some(n) = &req.name {
            a.name = n.clone();
        }
        if let Some(m) = &req.metadata {
            a.metadata = m.clone();
        }
        if let Some(o) = &req.organization {
            a.organization = Some(o.clone());
        }
        if let Some(c) = &req.callback_url {
            a.callback_url = Some(c.clone());
        }
        let out = dup_agent(&a);
        self.agents.set(k, a);
        proof {
            lemma_index_of_id(old_ags, agent_id@, k as int);
            assert(agent_view(out) == updated(old_ags[k as int], *req));
            assert(self.agents() =~= old_ags.update(k as int, agent_view(out)));
            lemma_update_keeps_registry_wf(old_ags, self.providers(), k as int, agent_view(out));
        }
        Ok(out)
    }
}

/// The position of the agent with id `id` (meaningful when it exists).
pub open spec fn index_of_id_spec(ags: Seq<AgentRecord>, id: Seq<char>) -> int {
    choose|k: int| 0 <= k < ags.len() && ags[k].id == id
}

proof fn lemma_index_of_id(ags: Seq<AgentRecord>, id: Seq<char>, k: int)
    requires
        forall|i: int, j: int| 0 <= i < j < ags.len() ==> (#[trigger] ags[i]).id != (#[trigger] ags[j]).id,
        0 <= k < ags.len(),
        ags[k].id == id,
    ensures
        index_of_id_spec(ags, id) == k,
        agent_with_id(ags, id) == ags[k],
{
    let q = choose|q: int| 0 <= q < ags.len() && ags[q].id == id;
    if q != k {
        if q < k {
            assert(ags[q].id != ags[k].id);
        } else {
            assert(ags[k].id != ags[q].id);
        }
    }
}

/// An update replaces exactly the fields it gives. After `update` of an
/// agent, the agent read back by its id has the request's name, metadata,
/// organization and callback URL wherever the request gives one, its former
/// value wherever it does not, and its id, type, keys, owner, creation time
/// and state unchanged.
pub proof fn law_update_replaces_given_fields(
    ags: Seq<AgentRecord>,
    providers: Seq<Seq<char>>,
    id: Seq<char>,
    req: UpdateAgentRequest,
)
    requires
        registry_wf(ags, providers),
        has_agent(ags, id),
    ensures
        ({
            let a = agent_with_id(ags, id);
            let after = ags.update(index_of_id_spec(ags, id), updated(a, req));
            let b = agent_with_id(after, id);
            &&& has_agent(after, id)
            &&& req.name is Some ==> b.name == req.name->Some_0@
            &&& req.name is None ==> b.name == a.name
            &&& req.metadata is Some ==> b.metadata == req.metadata->Some_0@
            &&& req.metadata is None ==> b.metadata == a.metadata
            &&& req.organization is Some ==> b.organization == Some(req.organization->Some_0@)
            &&& req.organization is None ==> b.organization == a.organization
            &&& req.callback_url is Some ==> b.callback_url == Some(req.callback_url->Some_0@)
            &&& req.callback_url is None ==> b.callback_url == a.callback_url
            &&& b.id == id
            &&& b.agent_type == a.agent_type
            &&& b.api_key == a.api_key
            &&& b.api_secret_hash == a.api_secret_hash
            &&& b.public_key == a.public_key
            &&& b.created_at == a.created_at
            &&& b.user_id == a.user_id
            &&& b.disabled_at == a.disabled_at
        }),
{
    let k = index_of_id_spec(ags, id);
    lemma_index_of_id(ags, id, k);
    let a = agent_with_id(ags, id);
    let after = ags.update(k, updated(a, req));
    lemma_update_keeps_registry_wf(ags, providers, k, updated(a, req));
    assert(after[k].id == id);
    lemma_index_of_id(after, id, k);
}

proof fn lemma_update_keeps_registry_wf(ags: Seq<AgentRecord>, providers: Seq<Seq<char>>, k: int, a: AgentRecord)
    requires
        registry_wf(ags, providers),
        0 <= k < ags.len(),
        a.id == ags[k].id,
        a.api_key == ags[k].api_key,
    ensures
        registry_wf(ags.update(k, a), providers),
{
    let ags2 = ags.update(k, a);
    assert forall|i: int, j: int| 0 <= i < j < ags2.len() implies (#[trigger] ags2[i]).id != (#[trigger] ags2[j]).id
        && ags2[i].api_key != ags2[j].api_key by {
        assert(ags2[i].id == ags[i].id && ags2[j].id == ags[j].id);
        assert(ags2[i].api_key == ags[i].api_key && ags2[j].api_key == ags[j].api_key);
    }
    assert forall|q: int| 0 <= q < providers.len() implies has_agent(ags2, #[trigger] providers[q]) by {
        let w = choose|w: int| 0 <= w < ags.len() && ags[w].id == providers[q];
        assert(ags2[w].id == ags[w].id);
    }
}

} // verus!
