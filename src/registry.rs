//! Child specifications and the registry that keeps them in start order.
use vstd::prelude::*;
use crate::config::SupervisorError;

verus! {

/// When a child that has terminated is started again.
#[derive(Clone, Copy, Debug, PartialEq, Eq, Structural)]
pub enum RestartType {
    /// Always restarted, whether it failed or finished.
    Permanent,
    /// Restarted only when it failed.
    Transient,
    /// Never restarted.
    Temporary,
}

/// How a child is stopped when its supervisor stops it.
#[derive(Clone, Copy, Debug, PartialEq, Eq, Structural)]
pub enum Shutdown {
    /// Asked to stop, and killed if it has not stopped within this many
    /// time units.
    Timeout(u64),
    /// Killed at once.
    Kill,
}

/// The description of one supervised child. How the child is started is
/// the caller's: it is known here by `id` alone.
#[derive(Clone, Copy, Debug, PartialEq, Eq, Structural)]
pub struct ChildSpec {
    pub id: u64,
    pub restart_type: RestartType,
    pub shutdown: Shutdown,
}

/// The ids of `s`, in order.
pub open spec fn ids_of(s: Seq<ChildSpec>) -> Seq<u64> {
    s.map_values(|c: ChildSpec| c.id)
}

/// The child specifications of a supervisor, in registration order, with
/// unique ids.
pub struct ChildRegistry {
    specs: Vec<ChildSpec>,
}

impl View for ChildRegistry {
    type V = Seq<ChildSpec>;

    closed spec fn view(&self) -> Seq<ChildSpec> {
        self.specs@
    }
}

impl ChildRegistry {
    /// No two children share an id.
    pub open spec fn wf(&self) -> bool {
        ids_of(self@).no_duplicates()
    }

    pub fn new() -> (r: ChildRegistry)
        ensures
            r.wf(),
            r@ == Seq::<ChildSpec>::empty(),
    {
        let r = ChildRegistry { specs: Vec::new() };
        proof {
            assert(ids_of(r@) =~= Seq::<u64>::empty());
        }
        r
    }

    pub fn len(&self) -> (r: usize)
        ensures
            r == self@.len(),
    {
        self.specs.len()
    }

    /// The child at position `i`.
    pub fn get(&self, i: usize) -> (r: ChildSpec)
        requires
            i < self@.len(),
        ensures
            r == self@[i as int],
    {
        self.specs[i]
    }

    /// The ids of the children, in registration order.
    pub fn ids(&self) -> (r: Vec<u64>)
        ensures
            r@ == ids_of(self@),
    {
        let mut r: Vec<u64> = Vec::new();
        let mut k: usize = 0;
        while k < self.specs.len()
            invariant
                k <= self@.len(),
                r@.len() == k,
                forall|j: int| 0 <= j < k ==> r@[j] == self@[j].id,
            decreases self@.len() - k,
        {
            r.push(self.specs[k].id);
            k = k + 1;
        }
        proof {
            assert(r@ =~= ids_of(self@));
        }
        r
    }

    /// The position of the child `id`, if it is registered.
    pub fn position(&self, id: u64) -> (r: Option<usize>)
        ensures
            r is None <==> !ids_of(self@).contains(id),
            r matches Some(i) ==> i < self@.len() && self@[i as int].id == id,
    {
        let mut k: usize = 0;
        while k < self.specs.len()
            invariant
                k <= self@.len(),
                forall|j: int| 0 <= j < k ==> self@[j].id != id,
            decreases self@.len() - k,
        {
            if self.specs[k].id == id {
                proof {
                    assert(ids_of(self@)[k as int] == id);
                }
                return Some(k);
            }
            k = k + 1;
        }
        proof {
            if ids_of(self@).contains(id) {
                let j = choose|j: int| 0 <= j < ids_of(self@).len() && ids_of(self@)[j] == id;
                assert(self@[j].id == id);
            }
        }
        None
    }

    /// The specification of the child `id`, if it is registered.
    pub fn lookup(&self, id: u64) -> (r: Option<ChildSpec>)
        ensures
            r is None <==> !ids_of(self@).contains(id),
            r matches Some(c) ==> c.id == id && self@.contains(c),
    {
        match self.position(id) {
            None => None,
            Some(i) => Some(self.specs[i]),
        }
    }

    /// Registers `spec` after the children already registered; refused with
    /// `DuplicateChildId` when its id is taken.
    pub fn insert(&mut self, spec: ChildSpec) -> (r: Result<(), SupervisorError>)
        requires
            old(self).wf(),
        ensures
            final(self).wf(),
            r is Ok <==> !ids_of(old(self)@).contains(spec.id),
            r is Ok ==> final(self)@ == old(self)@.push(spec),
            r is Err ==> final(self)@ == old(self)@ && r == Err::<(), SupervisorError>(
                SupervisorError::DuplicateChildId { id: spec.id },
            ),
    {
        match self.position(spec.id) {
            Some(_) => Err(SupervisorError::DuplicateChildId { id: spec.id }),
            None => {
                let ghost before = self@;
                self.specs.push(spec);
                proof {
                    assert(ids_of(self@) =~= ids_of(before).push(spec.id));
                }
                Ok(())
            },
        }
    }

    /// Removes the child at position `i`.
    pub fn remove_at(&mut self, i: usize) -> (r: ChildSpec)
        requires
            old(self).wf(),
            i < old(self)@.len(),
        ensures
            final(self).wf(),
            r == old(self)@[i as int],
            final(self)@ == old(self)@.remove(i as int),
    {
        let ghost before = ids_of(self@);
        let r = self.specs.remove(i);
        proof {
            let after = ids_of(self@);
            assert(after =~= before.remove(i as int));
            assert forall|a: int, b: int| 0 <= a < after.len() && 0 <= b < after.len() && a != b implies after[a]
                != after[b] by {
                let a0 = if a < i { a } else { a + 1 };
                let b0 = if b < i { b } else { b + 1 };
                assert(after[a] == before[a0]);
                assert(after[b] == before[b0]);
            }
        }
        r
    }
}

} // verus!
