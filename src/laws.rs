//! Properties of the control loop and of the command plane that hold across
//! several ticks or several requests.

use vstd::prelude::*;
use crate::cluster::{
    ClusterConfig, SetManaged, contains_id, managed_set, set_managed_outcome, tick_decision,
    tick_resource,
};
use crate::resource::{Resource, Status};

verus! {

/// `r` after one tick per entry of `statuses`, each tick preceded by a status
/// refresh to that entry.
pub open spec fn run_ticks(r: Resource, statuses: Seq<Status>) -> Resource
    decreases statuses.len(),
{
    if statuses.len() == 0 {
        r
    } else {
        tick_resource(
            Resource { status: statuses.last(), ..run_ticks(r, statuses.drop_last()) },
        )
    }
}

/// The decision of the tick that follows the first `k` ticks of a run, on the
/// status refreshed to `statuses[k]`.
pub open spec fn decision_at(
    r: Resource,
    statuses: Seq<Status>,
    k: int,
    cfg: ClusterConfig,
) -> crate::cluster::Decision {
    tick_decision(Resource { status: statuses[k], ..run_ticks(r, statuses.take(k)) }, cfg)
}

/// While a resource is unmanaged, no tick issues a corrective action for it,
/// whatever statuses are observed, and it stays unmanaged with its
/// outstanding flag untouched.
pub proof fn lemma_unmanaged_never_acts(r: Resource, statuses: Seq<Status>, cfg: ClusterConfig)
    requires
        !r.managed,
    ensures
        !run_ticks(r, statuses).managed,
        run_ticks(r, statuses).outstanding == r.outstanding,
        forall|k: int|
            0 <= k < statuses.len() ==> !(#[trigger] decision_at(
                r,
                statuses,
                k,
                cfg,
            )).action.is_corrective(),
    decreases statuses.len(),
{
    if statuses.len() > 0 {
        lemma_unmanaged_never_acts(r, statuses.drop_last(), cfg);
    }
    assert forall|k: int| 0 <= k < statuses.len() implies !(#[trigger] decision_at(
        r,
        statuses,
        k,
        cfg,
    )).action.is_corrective() by {
        lemma_unmanaged_never_acts(r, statuses.take(k), cfg);
    }
}

/// A tick issues a corrective action for a resource only when none is
/// outstanding for it, and the one it issues is outstanding afterwards: at
/// most one is ever in flight per resource.
pub proof fn lemma_at_most_one_outstanding(r: Resource, cfg: ClusterConfig)
    ensures
        tick_decision(r, cfg).action.is_corrective() ==> !r.outstanding,
        tick_decision(r, cfg).action.is_corrective() ==> tick_resource(r).outstanding,
        r.outstanding ==> tick_resource(r).outstanding,
{
}

/// Asking twice in a row that `id` be set to `m` never succeeds twice: when
/// the first request changes the flag, the second reports it unchanged, and the
/// second leaves the resources as the first left them.
pub proof fn lemma_set_managed_twice(s: Seq<Resource>, id: Seq<char>, m: bool)
    ensures
        set_managed_outcome(managed_set(s, id, m), id, m) != SetManaged::Changed,
        set_managed_outcome(s, id, m) == SetManaged::Changed ==> set_managed_outcome(
            managed_set(s, id, m),
            id,
            m,
        ) == SetManaged::Unchanged,
        managed_set(managed_set(s, id, m), id, m) == managed_set(s, id, m),
{
    let s1 = managed_set(s, id, m);
    assert(managed_set(s1, id, m) =~= s1);
    if contains_id(s, id) {
        let i = choose|i: int| 0 <= i < s.len() && s[i].id@ == id;
        assert(s1[i].id@ == id && s1[i].managed == m);
        assert(contains_id(s1, id));
    } else {
        assert(s1 =~= s);
    }
}

/// Requests for two different ids do not interfere: each has the outcome it
/// would have alone, whichever runs first, and both orders leave the same
/// resources.
pub proof fn lemma_set_managed_independent(
    s: Seq<Resource>,
    a: Seq<char>,
    ma: bool,
    b: Seq<char>,
    mb: bool,
)
    requires
        a != b,
    ensures
        set_managed_outcome(managed_set(s, a, ma), b, mb) == set_managed_outcome(s, b, mb),
        set_managed_outcome(managed_set(s, b, mb), a, ma) == set_managed_outcome(s, a, ma),
        managed_set(managed_set(s, a, ma), b, mb) == managed_set(managed_set(s, b, mb), a, ma),
{
    lemma_other_id_outcome(s, a, ma, b, mb);
    lemma_other_id_outcome(s, b, mb, a, ma);
    assert(managed_set(managed_set(s, a, ma), b, mb) =~= managed_set(managed_set(s, b, mb), a, ma));
}

proof fn lemma_other_id_outcome(s: Seq<Resource>, a: Seq<char>, ma: bool, b: Seq<char>, mb: bool)
    requires
        a != b,
    ensures
        set_managed_outcome(managed_set(s, a, ma), b, mb) == set_managed_outcome(s, b, mb),
{
    let s1 = managed_set(s, a, ma);
    assert(contains_id(s1, b) == contains_id(s, b)) by {
        if contains_id(s, b) {
            let i = choose|i: int| 0 <= i < s.len() && s[i].id@ == b;
            assert(s1[i].id@ == b);
        }
        if contains_id(s1, b) {
            let i = choose|i: int| 0 <= i < s1.len() && s1[i].id@ == b;
            assert(s[i].id@ == b);
        }
    }
    let p = |t: Seq<Resource>| exists|i: int| 0 <= i < t.len() && t[i].id@ == b && t[i].managed == mb;
    assert(p(s1) == p(s)) by {
        if p(s) {
            let i = choose|i: int| 0 <= i < s.len() && s[i].id@ == b && s[i].managed == mb;
            assert(s1[i].id@ == b && s1[i].managed == mb);
        }
        if p(s1) {
            let i = choose|i: int| 0 <= i < s1.len() && s1[i].id@ == b && s1[i].managed == mb;
            assert(s[i].id@ == b && s[i].managed == mb);
        }
    }
}

/// A request for an id that no resource has reports a miss and changes
/// nothing.
pub proof fn lemma_unknown_id_untouched(s: Seq<Resource>, id: Seq<char>, m: bool)
    requires
        !contains_id(s, id),
    ensures
        set_managed_outcome(s, id, m) == SetManaged::NotFound,
        managed_set(s, id, m) == s,
{
    assert(managed_set(s, id, m) =~= s);
}

} // verus!
