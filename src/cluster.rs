//! The cluster's resource collection: the control loop's tick over it, the
//! completion of corrective actions, and the check-then-set of a resource's
//! management flag.

use vstd::prelude::*;
use crate::resource::{Action, Resource, Status, decide, decide_action};

verus! {

/// Policy parameters of the control loop.
#[derive(Clone, Copy, Debug)]
pub struct ClusterConfig {
    /// Ticks of unknown status after which an operator alert is raised.
    pub unknown_retry_cap: u64,
    /// Failed corrective actions in a row after which an operator alert is raised.
    pub action_retry_cap: u64,
    /// Time between the starts of two ticks, in milliseconds.
    pub tick_interval_ms: u64,
}

/// Default number of unknown ticks before an alert.
pub const DEFAULT_UNKNOWN_RETRY_CAP: u64 = 5;

/// Default number of failed corrective actions before an alert.
pub const DEFAULT_ACTION_RETRY_CAP: u64 = 3;

/// Default time between ticks, in milliseconds.
pub const DEFAULT_TICK_INTERVAL_MS: u64 = 5000;

impl ClusterConfig {
    pub fn new() -> (r: ClusterConfig)
        ensures
            r.unknown_retry_cap == DEFAULT_UNKNOWN_RETRY_CAP,
            r.action_retry_cap == DEFAULT_ACTION_RETRY_CAP,
            r.tick_interval_ms == DEFAULT_TICK_INTERVAL_MS,
    {
        ClusterConfig {
            unknown_retry_cap: DEFAULT_UNKNOWN_RETRY_CAP,
            action_retry_cap: DEFAULT_ACTION_RETRY_CAP,
            tick_interval_ms: DEFAULT_TICK_INTERVAL_MS,
        }
    }
}

/// The outcome of one tick for one resource.
#[derive(PartialEq, Eq, Structural, Clone, Copy, Debug)]
pub struct Decision {
    pub action: Action,
    /// The resource has needed attention for longer than the policy allows.
    pub alert: bool,
}

/// `n + 1`, held at the largest `u64`.
pub open spec fn inc(n: u64) -> u64 {
    if n == u64::MAX {
        n
    } else {
        (n + 1) as u64
    }
}

/// The unknown-status counter after a tick.
pub open spec fn next_unknown_ticks(r: Resource) -> u64 {
    if r.status != Status::Unknown {
        0
    } else if r.managed {
        inc(r.unknown_ticks)
    } else {
        r.unknown_ticks
    }
}

/// What a tick decides for `r`.
pub open spec fn tick_decision(r: Resource, cfg: ClusterConfig) -> Decision {
    Decision {
        action: decide(r.managed, r.status, r.outstanding, r.fenced),
        alert: r.managed && r.status == Status::Unknown && next_unknown_ticks(r)
            >= cfg.unknown_retry_cap,
    }
}

/// `r` after a tick: an issued corrective action is outstanding, an issued
/// fence is remembered until the resource runs at home again, and the
/// unknown-status counter is brought up to date.
pub open spec fn tick_resource(r: Resource) -> Resource {
    let action = decide(r.managed, r.status, r.outstanding, r.fenced);
    Resource {
        outstanding: r.outstanding || action.is_corrective(),
        fenced: if r.status == Status::RunningOnHome {
            false
        } else {
            r.fenced || action == Action::Fence
        },
        unknown_ticks: next_unknown_ticks(r),
        ..r
    }
}

/// `r` after its outstanding action completed.
pub open spec fn complete_resource(r: Resource, succeeded: bool) -> Resource {
    Resource {
        outstanding: false,
        failed_actions: if succeeded {
            0
        } else {
            inc(r.failed_actions)
        },
        ..r
    }
}

impl Resource {
    /// This resource's part of a tick: decides its action and records an
    /// issued one as outstanding.
    pub fn tick_step(&mut self, cfg: ClusterConfig) -> (d: Decision)
        ensures
            d == tick_decision(*old(self), cfg),
            *final(self) == tick_resource(*old(self)),
    {
        let action = decide_action(self.managed, self.status, self.outstanding, self.fenced);
        let unknown_ticks = if self.status != Status::Unknown {
            0
        } else if self.managed {
            self.unknown_ticks.saturating_add(1)
        } else {
            self.unknown_ticks
        };
        let alert = self.managed && self.status == Status::Unknown && unknown_ticks
            >= cfg.unknown_retry_cap;
        self.outstanding = self.outstanding || action.corrective();
        self.fenced = if self.status == Status::RunningOnHome {
            false
        } else {
            self.fenced || action == Action::Fence
        };
        self.unknown_ticks = unknown_ticks;
        Decision { action, alert }
    }

    /// Records that this resource's outstanding action completed; tells
    /// whether its failures now call for an operator alert.
    pub fn complete(&mut self, succeeded: bool, cfg: ClusterConfig) -> (alert: bool)
        ensures
            *final(self) == complete_resource(*old(self), succeeded),
            alert == (!succeeded && inc(old(self).failed_actions) >= cfg.action_retry_cap),
    {
        self.outstanding = false;
        self.failed_actions = if succeeded {
            0
        } else {
            self.failed_actions.saturating_add(1)
        };
        !succeeded && self.failed_actions >= cfg.action_retry_cap
    }

    /// Sets the management flag when it differs from `manage`; the check and
    /// the change happen under one exclusive borrow.
    pub fn request_managed(&mut self, manage: bool) -> (r: SetManaged)
        ensures
            *final(self) == (Resource { managed: manage, ..*old(self) }),
            r == if old(self).managed == manage {
                SetManaged::Unchanged
            } else {
                SetManaged::Changed
            },
    {
        if self.managed == manage {
            SetManaged::Unchanged
        } else {
            self.managed = manage;
            SetManaged::Changed
        }
    }
}

/// The position of the first of `ids` equal to `id`, if any.
pub fn position_of(ids: &Vec<String>, id: &String) -> (r: Option<usize>)
    ensures
        r is Some <==> exists|i: int| 0 <= i < ids@.len() && ids@[i]@ == id@,
        r matches Some(i) ==> i < ids@.len() && ids@[i as int]@ == id@ && forall|j: int|
            0 <= j < i ==> ids@[j]@ != id@,
{
    let mut i: usize = 0;
    while i < ids.len()
        invariant
            i <= ids@.len(),
            forall|j: int| 0 <= j < i ==> ids@[j]@ != id@,
        decreases ids@.len() - i,
    {
        if ids[i] == *id {
            return Some(i);
        }
        i = i + 1;
    }
    None
}

/// No two resources share an id.
pub open spec fn ids_unique(s: Seq<Resource>) -> bool {
    forall|i: int, j: int| 0 <= i < s.len() && 0 <= j < s.len() && i != j ==> s[i].id@ != s[j].id@
}

/// Some resource has the id `id`.
pub open spec fn contains_id(s: Seq<Resource>, id: Seq<char>) -> bool {
    exists|i: int| 0 <= i < s.len() && s[i].id@ == id
}

/// Result of asking that a resource be managed or unmanaged.
#[derive(PartialEq, Eq, Structural, Clone, Copy, Debug)]
pub enum SetManaged {
    /// No resource has the id.
    NotFound,
    /// The resource was already in the requested state; nothing changed.
    Unchanged,
    /// The management flag was changed.
    Changed,
}

/// `s` with the management flag of the resource `id` set to `m`.
pub open spec fn managed_set(s: Seq<Resource>, id: Seq<char>, m: bool) -> Seq<Resource> {
    s.map_values(|r: Resource| if r.id@ == id { Resource { managed: m, ..r } } else { r })
}

/// Which outcome asking that `id` be set to `m` has on `s`.
pub open spec fn set_managed_outcome(s: Seq<Resource>, id: Seq<char>, m: bool) -> SetManaged {
    if !contains_id(s, id) {
        SetManaged::NotFound
    } else if exists|i: int| 0 <= i < s.len() && s[i].id@ == id && s[i].managed == m {
        SetManaged::Unchanged
    } else {
        SetManaged::Changed
    }
}

/// The resources of a cluster, with the policy of its control loop.
pub struct Cluster {
    resources: Vec<Resource>,
    config: ClusterConfig,
}

impl Cluster {
    /// The resources, in the order in which they were added.
    pub closed spec fn view_resources(&self) -> Seq<Resource> {
        self.resources@
    }

    /// The policy of the control loop.
    pub closed spec fn view_config(&self) -> ClusterConfig {
        self.config
    }

    pub fn config(&self) -> (r: ClusterConfig)
        ensures
            r == self.view_config(),
    {
        self.config
    }

    pub open spec fn wf(&self) -> bool {
        &&& ids_unique(self.view_resources())
        &&& forall|i: int|
            0 <= i < self.view_resources().len() ==> #[trigger] self.view_resources()[i].wf()
    }

    /// An empty cluster.
    pub fn new(config: ClusterConfig) -> (r: Cluster)
        ensures
            r.wf(),
            r.view_resources() == Seq::<Resource>::empty(),
            r.view_config() == config,
    {
        Cluster { resources: Vec::new(), config }
    }

    /// All resources of the cluster.
    pub fn resources(&self) -> (r: &Vec<Resource>)
        ensures
            r@ == self.view_resources(),
    {
        &self.resources
    }

    pub fn len(&self) -> (r: usize)
        ensures
            r == self.view_resources().len(),
    {
        self.resources.len()
    }

    /// The position of the resource with id `id`, if there is one.
    pub fn find(&self, id: &String) -> (r: Option<usize>)
        ensures
            r is Some <==> contains_id(self.view_resources(), id@),
            r matches Some(i) ==> i < self.view_resources().len()
                && self.view_resources()[i as int].id@ == id@,
    {
        let mut i: usize = 0;
        while i < self.resources.len()
            invariant
                i <= self.resources@.len(),
                forall|j: int| 0 <= j < i ==> self.resources@[j].id@ != id@,
            decreases self.resources@.len() - i,
        {
            if self.resources[i].id == *id {
                return Some(i);
            }
            i = i + 1;
        }
        None
    }

    /// Adds a resource, unless one with the same id is there already.
    pub fn add_resource(&mut self, r: Resource) -> (added: bool)
        requires
            old(self).wf(),
            r.wf(),
        ensures
            final(self).wf(),
            final(self).view_config() == old(self).view_config(),
            added == !contains_id(old(self).view_resources(), r.id@),
            added ==> final(self).view_resources() == old(self).view_resources().push(r),
            !added ==> final(self).view_resources() == old(self).view_resources(),
    {
        match self.find(&r.id) {
            Some(_) => false,
            None => {
                self.resources.push(r);
                true
            },
        }
    }

    /// Gives up the cluster, handing over its resources in order.
    pub fn into_resources(self) -> (r: Vec<Resource>)
        ensures
            r@ == self.view_resources(),
    {
        self.resources
    }

    /// Replaces the resource at `i` by `r`, handing back the old one.
    fn swap_at(&mut self, i: usize, r: &mut Resource)
        requires
            i < old(self).view_resources().len(),
        ensures
            final(self).view_resources() == old(self).view_resources().update(i as int, *old(r)),
            *final(r) == old(self).view_resources()[i as int],
            final(self).view_config() == old(self).view_config(),
    {
        self.resources.set_and_swap(i, r);
    }

    /// Records the status observed for the resource at `i`.
    pub fn refresh_status(&mut self, i: usize, status: Status)
        requires
            old(self).wf(),
            i < old(self).view_resources().len(),
        ensures
            final(self).wf(),
            final(self).view_config() == old(self).view_config(),
            final(self).view_resources() == old(self).view_resources().update(
                i as int,
                Resource { status, ..old(self).view_resources()[i as int] },
            ),
    {
        let mut r = placeholder();
        self.swap_at(i, &mut r);
        r.set_status(status);
        self.swap_at(i, &mut r);
        proof {
            assert forall|a: int, b: int|
                0 <= a < self.view_resources().len() && 0 <= b < self.view_resources().len() && a
                    != b implies self.view_resources()[a].id@ != self.view_resources()[b].id@ by {
                assert(old(self).view_resources()[a].id@ != old(self).view_resources()[b].id@);
            }
            assert forall|a: int| 0 <= a < self.view_resources().len() implies #[trigger] self.view_resources()[a].wf() by {
                assert(old(self).view_resources()[a].wf());
            }
        }
    }

    /// One pass of the control loop over every resource: decides each
    /// resource's action and marks issued corrective actions as outstanding.
    pub fn tick(&mut self) -> (r: Vec<Decision>)
        requires
            old(self).wf(),
        ensures
            final(self).wf(),
            final(self).view_config() == old(self).view_config(),
            final(self).view_resources().len() == old(self).view_resources().len(),
            r@.len() == old(self).view_resources().len(),
            forall|i: int|
                0 <= i < r@.len() ==> {
                    &&& #[trigger] r@[i] == tick_decision(
                        old(self).view_resources()[i],
                        old(self).view_config(),
                    )
                    &&& final(self).view_resources()[i] == tick_resource(
                        old(self).view_resources()[i],
                    )
                },
    {
        let n = self.resources.len();
        let mut out: Vec<Decision> = Vec::new();
        let mut i: usize = 0;
        while i < n
            invariant
                n == old(self).view_resources().len(),
                self.view_resources().len() == n,
                self.view_config() == old(self).view_config(),
                i <= n,
                out@.len() == i,
                forall|j: int|
                    0 <= j < i ==> {
                        &&& #[trigger] out@[j] == tick_decision(
                            old(self).view_resources()[j],
                            old(self).view_config(),
                        )
                        &&& self.view_resources()[j] == tick_resource(old(self).view_resources()[j])
                    },
                forall|j: int| i <= j < n ==> self.view_resources()[j] == old(self).view_resources()[j],
            decreases n - i,
        {
            let mut r = placeholder();
            self.swap_at(i, &mut r);
            let d = r.tick_step(self.config);
            self.swap_at(i, &mut r);
            out.push(d);
            i = i + 1;
        }
        proof {
            let s = self.view_resources();
            let o = old(self).view_resources();
            assert forall|a: int| 0 <= a < s.len() implies s[a] == tick_resource(o[a]) by {
                assert(out@[a] == tick_decision(o[a], old(self).view_config()));
            }
            assert forall|a: int, b: int|
                0 <= a < s.len() && 0 <= b < s.len() && a != b implies s[a].id@ != s[b].id@ by {
                assert(o[a].id@ != o[b].id@);
            }
            assert forall|a: int| 0 <= a < s.len() implies #[trigger] s[a].wf() by {
                assert(o[a].wf());
            }
        }
        out
    }

    /// Records that the corrective action outstanding for the resource at `i`
    /// completed; tells whether its failures now call for an operator alert.
    pub fn complete_action(&mut self, i: usize, succeeded: bool) -> (alert: bool)
        requires
            old(self).wf(),
            i < old(self).view_resources().len(),
        ensures
            final(self).wf(),
            final(self).view_config() == old(self).view_config(),
            final(self).view_resources() == old(self).view_resources().update(
                i as int,
                complete_resource(old(self).view_resources()[i as int], succeeded),
            ),
            alert == (!succeeded && inc(old(self).view_resources()[i as int].failed_actions)
                >= old(self).view_config().action_retry_cap),
    {
        let mut r = placeholder();
        self.swap_at(i, &mut r);
        let alert = r.complete(succeeded, self.config);
        self.swap_at(i, &mut r);
        proof {
            let s = self.view_resources();
            let o = old(self).view_resources();
            assert forall|a: int, b: int|
                0 <= a < s.len() && 0 <= b < s.len() && a != b implies s[a].id@ != s[b].id@ by {
                assert(o[a].id@ != o[b].id@);
            }
            assert forall|a: int| 0 <= a < s.len() implies #[trigger] s[a].wf() by {
                assert(o[a].wf());
            }
        }
        alert
    }

    /// Sets whether the resource `id` is managed. Reports a miss, or an
    /// unchanged flag, without changing anything.
    pub fn set_managed(&mut self, id: &String, manage: bool) -> (r: SetManaged)
        requires
            old(self).wf(),
        ensures
            final(self).wf(),
            final(self).view_config() == old(self).view_config(),
            r == set_managed_outcome(old(self).view_resources(), id@, manage),
            final(self).view_resources() == managed_set(old(self).view_resources(), id@, manage),
    {
        let ghost o = self.view_resources();
        match self.find(id) {
            None => {
                assert(managed_set(o, id@, manage) =~= o);
                SetManaged::NotFound
            },
            Some(i) => {
                if self.resources[i].managed == manage {
                    assert(managed_set(o, id@, manage) =~= o) by {
                        assert forall|j: int| 0 <= j < o.len() && o[j].id@ == id@ implies j == i by {}
                    }
                    SetManaged::Unchanged
                } else {
                    let mut r = placeholder();
                    self.swap_at(i, &mut r);
                    r.set_managed(manage);
                    self.swap_at(i, &mut r);
                    proof {
                        let s = self.view_resources();
                        assert(s =~= managed_set(o, id@, manage)) by {
                            assert forall|j: int| 0 <= j < o.len() && o[j].id@ == id@ implies j == i by {}
                        }
                        assert forall|a: int, b: int|
                            0 <= a < s.len() && 0 <= b < s.len() && a != b implies s[a].id@ != s[b].id@ by {
                            assert(o[a].id@ != o[b].id@);
                        }
                        assert forall|a: int| 0 <= a < s.len() implies #[trigger] s[a].wf() by {
                            assert(o[a].wf());
                        }
                        assert(!(exists|j: int| 0 <= j < o.len() && o[j].id@ == id@ && o[j].managed == manage)) by {
                            assert forall|j: int| 0 <= j < o.len() && o[j].id@ == id@ implies j == i by {}
                        }
                    }
                    SetManaged::Changed
                }
            },
        }
    }
}

/// A resource that stands in a slot while the real one is being updated.
fn placeholder() -> (r: Resource) {
    Resource {
        id: String::new(),
        status: Status::Unknown,
        managed: false,
        parameters: Vec::new(),
        outstanding: false,
        fenced: false,
        unknown_ticks: 0,
        failed_actions: 0,
    }
}

} // verus!
