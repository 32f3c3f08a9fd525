//! A single managed entity of the cluster and the policy that decides, on each
//! tick, what the control loop does about it.

use vstd::prelude::*;

verus! {

/// Run state of a resource as last observed.
#[derive(PartialEq, Eq, Structural, Clone, Copy, Debug)]
pub enum Status {
    /// Running in its expected location.
    RunningOnHome,
    /// Running, but away from its expected location.
    RunningAway,
    /// Not running anywhere.
    Stopped,
    /// The node that owns the resource is unreachable or has failed.
    Failed,
    /// The status could not be determined.
    Unknown,
}

/// What the control loop does with a resource on one tick.
#[derive(PartialEq, Eq, Structural, Clone, Copy, Debug)]
pub enum Action {
    /// Steady state: nothing to do.
    Observe,
    /// Relocate the resource to its expected location.
    Migrate,
    /// Isolate the node that owns the resource.
    Fence,
    /// Take no action on this tick.
    Skip,
}

impl Action {
    pub open spec fn is_corrective(self) -> bool {
        self == Action::Migrate || self == Action::Fence
    }

    /// Whether this action is a migration or a fencing.
    pub fn corrective(&self) -> (r: bool)
        ensures
            r == self.is_corrective(),
    {
        match self {
            Action::Migrate | Action::Fence => true,
            _ => false,
        }
    }
}

/// A managed entity: its identity, last observed status, management flag,
/// agent parameters, and the bookkeeping of the control loop.
pub struct Resource {
    pub id: String,
    pub status: Status,
    /// When false the control loop only observes this resource.
    pub managed: bool,
    /// Agent-specific configuration; keys are unique.
    pub parameters: Vec<(String, String)>,
    /// A corrective action was issued and has not completed yet.
    pub outstanding: bool,
    /// The owning node was fenced since the resource last ran at home.
    pub fenced: bool,
    /// Consecutive ticks on which a managed resource had an unknown status.
    pub unknown_ticks: u64,
    /// Consecutive corrective actions that failed.
    pub failed_actions: u64,
}

/// No two parameters share a key.
pub open spec fn keys_unique(p: Seq<(String, String)>) -> bool {
    forall|i: int, j: int|
        0 <= i < p.len() && 0 <= j < p.len() && i != j ==> p[i].0@ != p[j].0@
}

/// Some parameter has the key `k`.
pub open spec fn has_key_spec(p: Seq<(String, String)>, k: Seq<char>) -> bool {
    exists|i: int| 0 <= i < p.len() && p[i].0@ == k
}

/// The action that the policy takes for a resource in the given state: none
/// while unmanaged, at home, of unknown status, or with an action in flight;
/// a fence for a failed node not yet fenced; a migration otherwise.
pub open spec fn decide(managed: bool, status: Status, outstanding: bool, fenced: bool) -> Action {
    if !managed {
        Action::Skip
    } else {
        match status {
            Status::RunningOnHome => Action::Observe,
            Status::Unknown => Action::Skip,
            _ => if outstanding {
                Action::Skip
            } else if status == Status::Failed && !fenced {
                Action::Fence
            } else {
                Action::Migrate
            },
        }
    }
}

/// The action that the policy takes for a resource in the given state.
pub fn decide_action(managed: bool, status: Status, outstanding: bool, fenced: bool) -> (r: Action)
    ensures
        r == decide(managed, status, outstanding, fenced),
{
    if !managed {
        return Action::Skip;
    }
    match status {
        Status::RunningOnHome => Action::Observe,
        Status::Unknown => Action::Skip,
        Status::Failed => if outstanding {
            Action::Skip
        } else if fenced {
            Action::Migrate
        } else {
            Action::Fence
        },
        _ => if outstanding {
            Action::Skip
        } else {
            Action::Migrate
        },
    }
}

/// Whether `key` is among the keys of `params`.
pub fn has_key(params: &Vec<(String, String)>, key: &String) -> (r: bool)
    ensures
        r == has_key_spec(params@, key@),
{
    let mut i: usize = 0;
    while i < params.len()
        invariant
            i <= params@.len(),
            forall|j: int| 0 <= j < i ==> params@[j].0@ != key@,
        decreases params@.len() - i,
    {
        if params[i].0 == *key {
            return true;
        }
        i = i + 1;
    }
    false
}

impl Resource {
    pub open spec fn wf(&self) -> bool {
        keys_unique(self.parameters@)
    }

    /// A new resource, managed or not, in unknown status, with nothing
    /// outstanding; `None` when two parameters share a key.
    pub fn new(id: String, managed: bool, parameters: Vec<(String, String)>) -> (r: Option<
        Resource,
    >)
        ensures
            r is Some <==> keys_unique(parameters@),
            r matches Some(res) ==> {
                &&& res.wf()
                &&& res.id@ == id@
                &&& res.managed == managed
                &&& res.status == Status::Unknown
                &&& res.parameters@ == parameters@
                &&& !res.outstanding
                &&& !res.fenced
                &&& res.unknown_ticks == 0
                &&& res.failed_actions == 0
            },
    {
        let mut i: usize = 0;
        while i < parameters.len()
            invariant
                i <= parameters@.len(),
                forall|a: int, b: int|
                    0 <= a < i && 0 <= b < parameters@.len() && a != b ==> parameters@[a].0@
                        != parameters@[b].0@,
            decreases parameters@.len() - i,
        {
            let mut j: usize = 0;
            while j < parameters.len()
                invariant
                    i < parameters@.len(),
                    j <= parameters@.len(),
                    forall|b: int|
                        0 <= b < j && b != i ==> parameters@[i as int].0@ != parameters@[b].0@,
                decreases parameters@.len() - j,
            {
                if j != i && parameters[i].0 == parameters[j].0 {
                    return None;
                }
                j = j + 1;
            }
            i = i + 1;
        }
        Some(Resource {
            id,
            status: Status::Unknown,
            managed,
            parameters,
            outstanding: false,
            fenced: false,
            unknown_ticks: 0,
            failed_actions: 0,
        })
    }

    pub fn get_status(&self) -> (r: Status)
        ensures
            r == self.status,
    {
        self.status
    }

    pub fn set_status(&mut self, status: Status)
        ensures
            *final(self) == (Resource { status, ..*old(self) }),
    {
        self.status = status;
    }

    pub fn get_managed(&self) -> (r: bool)
        ensures
            r == self.managed,
    {
        self.managed
    }

    pub fn set_managed(&mut self, managed: bool)
        ensures
            *final(self) == (Resource { managed, ..*old(self) }),
    {
        self.managed = managed;
    }

    /// The value of the parameter `key`, if there is one.
    pub fn parameter(&self, key: &String) -> (r: Option<&String>)
        ensures
            r is Some <==> has_key_spec(self.parameters@, key@),
            r matches Some(v) ==> exists|i: int|
                0 <= i < self.parameters@.len() && self.parameters@[i].0@ == key@
                    && self.parameters@[i].1 == *v,
    {
        let mut i: usize = 0;
        while i < self.parameters.len()
            invariant
                i <= self.parameters@.len(),
                forall|j: int| 0 <= j < i ==> self.parameters@[j].0@ != key@,
            decreases self.parameters@.len() - i,
        {
            if self.parameters[i].0 == *key {
                return Some(&self.parameters[i].1);
            }
            i = i + 1;
        }
        None
    }
}

} // verus!
