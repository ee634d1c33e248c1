//! A simple generic system for tracking time: cycles defined relative to
//! each other, down to a unit cycle.
use vstd::prelude::*;
use vstd::string::*;

verus! {

/// A type that stands for a time system.
pub trait TimeSystemTy {

}

/// The identifier of a cycle.
pub type CycleId = u32;

/// The coefficient of a cycle relative to its parent: `Normal(n)` is `n`
/// times the parent, `Inverted(n)` is one `n`th of it.
#[derive(Debug, Clone, Copy, PartialEq, Eq, Hash, Structural)]
pub enum Coef {
    Inverted(u32),
    Normal(u32),
}

impl Coef {
    pub open spec fn spec_mag(self) -> u32 {
        match self {
            Coef::Inverted(m) => m,
            Coef::Normal(m) => m,
        }
    }

    /// The magnitude of the coefficient.
    pub fn mag(&self) -> (r: u32)
        ensures
            r == self.spec_mag(),
    {
        match self {
            Coef::Inverted(mag) => *mag,
            Coef::Normal(mag) => *mag,
        }
    }
}

impl From<u32> for Coef {
    fn from(coef: u32) -> (r: Self)
        ensures
            r == Coef::Normal(coef),
    {
        Coef::Normal(coef)
    }
}

impl vstd::std_specs::convert::FromSpecImpl<u32> for Coef {
    open spec fn obeys_from_spec() -> bool {
        true
    }

    open spec fn from_spec(v: u32) -> Self {
        Coef::Normal(v)
    }
}

/// The errors of the time system.
#[derive(Debug, Clone, Copy, PartialEq, Eq, Structural)]
pub enum KhronosError {
    /// The number of division names differs from the magnitude of the
    /// coefficient.
    DivNamesMismatch,
    /// A cycle is the parent of more than one cycle.
    CycleChildMoreThanOnce,
}

/// A cycle: a named duration defined as a coefficient of its parent cycle.
#[derive(Debug, Clone)]
pub struct Cycle {
    id: CycleId,
    pub name: String,
    pub description: String,
    pub coef: Coef,
    /// An optional name for each division of the cycle, as the names of the
    /// months of a year.
    pub div_names: Option<Vec<String>>,
    /// The cycle this cycle is relative to.
    pub parent: CycleId,
}

/// The base unit of time of a system, one by definition.
pub struct UnitCycle {
    pub name: String,
    pub description: String,
}

impl Cycle {
    pub closed spec fn spec_id(self) -> CycleId {
        self.id
    }

    pub closed spec fn spec_name(self) -> Seq<char> {
        self.name@
    }

    pub closed spec fn spec_description(self) -> Seq<char> {
        self.description@
    }

    pub closed spec fn spec_coef(self) -> Coef {
        self.coef
    }

    pub closed spec fn spec_div_names(self) -> Option<Seq<String>> {
        match self.div_names {
            Some(v) => Some(v@),
            None => None,
        }
    }

    pub closed spec fn spec_parent(self) -> CycleId {
        self.parent
    }

    /// A cycle; an error where there are division names and not as many as
    /// the magnitude of the coefficient.
    pub fn new(
        id: CycleId,
        name: &str,
        description: &str,
        coef: Coef,
        div_names: Option<Vec<String>>,
        parent: CycleId,
    ) -> (r: Result<Self, KhronosError>)
        ensures
            match r {
                Ok(c) => {
                    &&& (div_names matches Some(v) ==> v@.len() == coef.spec_mag())
                    &&& c.spec_id() == id
                    &&& c.spec_name() == name@
                    &&& c.spec_description() == description@
                    &&& c.spec_coef() == coef
                    &&& c.spec_div_names() == match div_names {
                        Some(v) => Some(v@),
                        None => None::<Seq<String>>,
                    }
                    &&& c.spec_parent() == parent
                },
                Err(e) => e == KhronosError::DivNamesMismatch && (div_names matches Some(v) && v@.len()
                    != coef.spec_mag()),
            },
    {
        match &div_names {
            Some(v) => {
                if v.len() != coef.mag() as usize {
                    return Err(KhronosError::DivNamesMismatch);
                }
            },
            None => {},
        }
        Ok(
            Cycle {
                id,
                name: String::from_str(name),
                description: String::from_str(description),
                coef,
                div_names,
                parent,
            },
        )
    }

    pub fn get_id(&self) -> (r: CycleId)
        ensures
            r == self.spec_id(),
    {
        self.id
    }
}

/// Two different cycles of `cycles` name the same cycle, other than zero
/// (no parent), as their parent.
pub open spec fn parent_shared(cycles: Seq<Cycle>) -> bool {
    exists|i: int, j: int|
        0 <= i < j < cycles.len() && (#[trigger] cycles[i]).spec_parent() != 0
            && cycles[i].spec_parent() == (#[trigger] cycles[j]).spec_parent()
}

/// A time system: a unit cycle and the cycles defined from it.
pub struct System {
    pub unit_cycle: UnitCycle,
    pub cycles: Vec<Cycle>,
}

impl System {
    /// A system with the unit cycle "unity" and no other cycle.
    pub fn new() -> (r: Self)
        ensures
            r.unit_cycle.name@ == "unity"@,
            r.unit_cycle.description@ == "The base unit of time"@,
            r.cycles@.len() == 0,
    {
        System {
            unit_cycle: UnitCycle {
                name: String::from_str("unity"),
                description: String::from_str("The base unit of time"),
            },
            cycles: Vec::new(),
        }
    }

    pub fn from_cycles(unit: UnitCycle, cycles: Vec<Cycle>) -> (r: Self)
        ensures
            r.unit_cycle == unit,
            r.cycles@ == cycles@,
    {
        System { unit_cycle: unit, cycles }
    }

    /// Checks that the cycles form a valid list: no coefficient is below
    /// zero, and no cycle is the parent of more than one cycle. The first
    /// rule holds of every list, a magnitude being unsigned; the second is
    /// checked.
    pub fn verify_cycles(cycles: Vec<Cycle>) -> (r: Result<(), KhronosError>)
        ensures
            match r {
                Ok(()) => !parent_shared(cycles@),
                Err(e) => e == KhronosError::CycleChildMoreThanOnce && parent_shared(cycles@),
            },
    {
        let n = cycles.len();
        let mut i: usize = 0;
        while i < n
            invariant
                n == cycles@.len(),
                0 <= i <= n,
                forall|a: int, b: int|
                    0 <= a < i && a < b < n ==> !((#[trigger] cycles@[a]).spec_parent() != 0
                        && cycles@[a].spec_parent() == (#[trigger] cycles@[b]).spec_parent()),
            decreases n - i,
        {
            let parent = cycles[i].parent;
            if parent != 0 {
                let mut k: usize = i + 1;
                while k < n
                    invariant
                        n == cycles@.len(),
                        0 <= i < n,
                        i + 1 <= k <= n,
                        parent == cycles@[i as int].spec_parent(),
                        parent != 0,
                        forall|b: int| i < b < k ==> (#[trigger] cycles@[b]).spec_parent() != parent,
                    decreases n - k,
                {
                    if cycles[k].parent == parent {
                        assert(cycles@[i as int].spec_parent() == cycles@[k as int].spec_parent());
                        return Err(KhronosError::CycleChildMoreThanOnce);
                    }
                    k = k + 1;
                }
            }
            i = i + 1;
        }
        Ok(())
    }

    pub fn add_cycle(&mut self, cycle: Cycle)
        ensures
            final(self).cycles@ == old(self).cycles@.push(cycle),
            final(self).unit_cycle == old(self).unit_cycle,
    {
        self.cycles.push(cycle);
    }

    /// The first cycle with identifier `cycle_id`.
    pub fn get_cycle(&self, cycle_id: CycleId) -> (r: Option<&Cycle>)
        ensures
            match r {
                Some(c) => exists|i: int|
                    0 <= i < self.cycles@.len() && self.cycles@[i] == *c && c.spec_id() == cycle_id && forall|j: int|
                        0 <= j < i ==> (#[trigger] self.cycles@[j]).spec_id() != cycle_id,
                None => forall|j: int| 0 <= j < self.cycles@.len() ==> (#[trigger] self.cycles@[j]).spec_id() != cycle_id,
            },
    {
        let mut i: usize = 0;
        while i < self.cycles.len()
            invariant
                0 <= i <= self.cycles@.len(),
                forall|j: int| 0 <= j < i ==> (#[trigger] self.cycles@[j]).spec_id() != cycle_id,
            decreases self.cycles@.len() - i,
        {
            if self.cycles[i].id == cycle_id {
                return Some(&self.cycles[i]);
            }
            i = i + 1;
        }
        None
    }
}

/// A time system of type `T`.
pub struct TimeSystem<T: TimeSystemTy> {
    pub system: T,
}

} // verus!
