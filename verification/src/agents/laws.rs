//! Properties of the registry that span several operations.

use vstd::prelude::*;
use crate::agents::registry::{
    agent_with_id, agent_with_key, disabled, enabled, first_twin, has_agent, has_key, has_twin,
    is_twin, registry_wf, AgentRecord,
};
use crate::seqs::{keep, lemma_keep_origin};

verus! {

/// A newly registered agent is found by its key and by its id, and every
/// agent registered before is found as it was.
pub proof fn law_registered_agent_is_found(ags: Seq<AgentRecord>, providers: Seq<Seq<char>>, a: AgentRecord)
    requires
        registry_wf(ags, providers),
        !has_agent(ags, a.id),
        !has_key(ags, a.api_key),
    ensures
        registry_wf(ags.push(a), providers),
        has_key(ags.push(a), a.api_key) && agent_with_key(ags.push(a), a.api_key) == a,
        has_agent(ags.push(a), a.id) && agent_with_id(ags.push(a), a.id) == a,
        forall|k: int| 0 <= k < ags.len() ==> agent_with_key(ags.push(a), #[trigger] ags[k].api_key) == ags[k],
{
    let s = ags.push(a);
    assert(s[ags.len() as int] == a);
    assert forall|i: int, j: int| 0 <= i < j < s.len() implies (#[trigger] s[i]).id != (#[trigger] s[j]).id
        && s[i].api_key != s[j].api_key by {
        if j == ags.len() {
            assert(s[i] == ags[i]);
            if s[i].id == a.id {
                assert(has_agent(ags, a.id));
            }
            if s[i].api_key == a.api_key {
                assert(has_key(ags, a.api_key));
            }
        } else {
            assert(s[i] == ags[i] && s[j] == ags[j]);
        }
    }
    assert forall|k: int| 0 <= k < providers.len() implies has_agent(s, #[trigger] providers[k]) by {
        let q = choose|q: int| 0 <= q < ags.len() && ags[q].id == providers[k];
        assert(s[q] == ags[q]);
    }
    let q = choose|q: int| 0 <= q < s.len() && s[q].api_key == a.api_key;
    if q != ags.len() {
        assert(s[q] == ags[q]);
    }
    let q2 = choose|q2: int| 0 <= q2 < s.len() && s[q2].id == a.id;
    if q2 != ags.len() {
        assert(s[q2] == ags[q2]);
    }
    assert forall|k: int| 0 <= k < ags.len() implies agent_with_key(s, #[trigger] ags[k].api_key) == ags[k] by {
        assert(s[k] == ags[k]);
        let w = choose|w: int| 0 <= w < s.len() && s[w].api_key == ags[k].api_key;
        if w != k {
            if w < k {
                assert(s[w].api_key != s[k].api_key);
            } else {
                assert(s[k].api_key != s[w].api_key);
            }
        }
    }
}

/// Registering again under the same owner and name finds the first
/// registration: while it stays enabled, repeating the request changes
/// nothing and answers the same agent.
pub proof fn law_reregistration_finds_first(ags: Seq<AgentRecord>, name: Seq<char>, user: Seq<char>, a: AgentRecord)
    requires
        !has_twin(ags, name, user),
        a.name == name,
        a.user_id == Some(user),
        a.disabled_at is None,
    ensures
        has_twin(ags.push(a), name, user),
        first_twin(ags.push(a), name, user) == a,
{
    let s = ags.push(a);
    assert(is_twin(s[ags.len() as int], name, user));
    assert forall|j: int| 0 <= j < ags.len() implies !is_twin(#[trigger] s[j], name, user) by {
        assert(s[j] == ags[j]);
    }
    let k = choose|k: int|
        0 <= k < s.len() && is_twin(s[k], name, user) && forall|j: int| 0 <= j < k ==> !is_twin(#[trigger] s[j], name, user);
    if k < ags.len() {
        assert(s[k] == ags[k]);
    }
}

/// A disabled agent is no longer listed, and a listed agent is enabled.
pub proof fn law_disabled_agents_are_not_listed(ags: Seq<AgentRecord>, a: AgentRecord, now: i64)
    ensures
        !enabled()(disabled(a, now)),
        forall|k: int| 0 <= k < keep(ags, enabled()).len() ==> (#[trigger] keep(ags, enabled())[k]).disabled_at is None,
{
    lemma_keep_origin(ags, enabled());
    assert forall|k: int| 0 <= k < keep(ags, enabled()).len() implies (#[trigger] keep(ags, enabled())[k]).disabled_at
        is None by {
        let i = choose|i: int| 0 <= i < ags.len() && keep(ags, enabled())[k] == ags[i] && enabled()(ags[i]);
    }
}

} // verus!
