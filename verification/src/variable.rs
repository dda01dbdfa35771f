//! The variable store: named slots holding values, each mutable or
//! constant, addressed by handles. A handle is the slot's position; slots
//! are never removed, so a handle stays valid and keeps naming the same
//! slot for the store's whole life.

use vstd::prelude::*;

use crate::value::{val_equiv, Value};
use crate::vm::VmError;

verus! {

#[derive(Debug)]
pub struct Variable {
    pub name: String,
    pub value: Value,
    pub constant: bool,
}

impl Variable {
    pub fn new_const(name: String, value: Value, constant: bool) -> (r: Self)
        ensures
            r.name@ == name@,
            r.value == value,
            r.constant == constant,
    {
        Variable { name, value, constant }
    }

    pub fn new(name: String, value: Value) -> (r: Self)
        ensures
            r.name@ == name@,
            r.value == value,
            !r.constant,
    {
        Self::new_const(name, value, false)
    }

    pub fn name(&self) -> (r: &str)
        ensures
            r@ == self.name@,
    {
        self.name.as_str()
    }

    pub fn val(&self) -> (r: Value)
        ensures
            val_equiv(r, self.value),
    {
        self.value.duplicate()
    }

    /// Writing through the public mutator fails on a constant slot and
    /// leaves it unchanged.
    pub fn set_val(&mut self, value: Value) -> (r: Result<(), VmError>)
        ensures
            old(self).constant ==> (*final(self) == *old(self) && (r matches Err(
                VmError::ConstantMutation(n),
            ) && n@ == old(self).name@)),

            !old(self).constant ==> (r is Ok && final(self).value == value && final(self).name@
                == old(self).name@ && !final(self).constant),
    {
        if self.constant {
            Err(VmError::ConstantMutation(self.name.clone()))
        } else {
            self.value = value;
            Ok(())
        }
    }

    /// The privileged setter that ignores constness; used once, to install
    /// the processor's self-reference after the store exists.
    pub fn force_set_val(&mut self, value: Value)
        ensures
            final(self).value == value,
            final(self).name@ == old(self).name@,
            final(self).constant == old(self).constant,
    {
        self.value = value;
    }

    pub fn constant(&self) -> (r: bool)
        ensures
            r == self.constant,
    {
        self.constant
    }
}

/// The position in `s` of the first slot named `name`, or -1.
pub open spec fn find_name(s: Seq<Variable>, name: Seq<char>) -> int
    decreases s.len(),
{
    if s.len() == 0 {
        -1
    } else if s[0].name@ == name {
        0
    } else {
        let r = find_name(s.skip(1), name);
        if r < 0 {
            -1
        } else {
            r + 1
        }
    }
}

pub open spec fn has_name(s: Seq<Variable>, name: Seq<char>) -> bool {
    find_name(s, name) >= 0
}

/// What `find_name` finds is the first slot with that name.
pub proof fn lemma_find_name(s: Seq<Variable>, name: Seq<char>)
    ensures
        find_name(s, name) == -1 ==> (forall|i: int| 0 <= i < s.len() ==> s[i].name@ != name),
        find_name(s, name) >= 0 ==> {
            &&& find_name(s, name) < s.len()
            &&& s[find_name(s, name)].name@ == name
            &&& (forall|j: int| 0 <= j < find_name(s, name) ==> s[j].name@ != name)
        },
    decreases s.len(),
{
    if s.len() > 0 {
        lemma_find_name(s.skip(1), name);
        if s[0].name@ != name {
            assert forall|i: int| 0 <= i < s.len() && find_name(s, name) == -1 implies s[i].name@
                != name by {
                if i > 0 {
                    assert(s.skip(1)[i - 1] == s[i]);
                }
            }
            if find_name(s, name) >= 0 {
                let f = find_name(s, name);
                assert(s.skip(1)[f - 1] == s[f]);
                assert forall|j: int| 0 <= j < f implies s[j].name@ != name by {
                    if j > 0 {
                        assert(s.skip(1)[j - 1] == s[j]);
                    }
                }
            }
        }
    }
}

/// An opaque handle: the index of a slot in the store.
#[derive(Debug, Clone, Copy)]
pub struct VarHandle(pub usize);

#[derive(Debug)]
pub struct Variables {
    pub vars: Vec<Variable>,
}

impl Variables {
    /// Slot names are unique, so each handle addresses the slot of one
    /// name forever.
    pub open spec fn wf(&self) -> bool {
        forall|i: int, j: int|
            0 <= i < j < self.vars@.len() ==> self.vars@[i].name@ != self.vars@[j].name@
    }

    pub fn new() -> (r: Self)
        ensures
            r.vars@.len() == 0,
            r.wf(),
    {
        Variables { vars: Vec::new() }
    }

    /// The handle for a name: the existing slot's handle, or the handle of
    /// a fresh mutable null slot appended for it. Existing slots are never
    /// touched.
    pub fn handle(&mut self, name: &str) -> (r: VarHandle)
        requires
            old(self).wf(),
        ensures
            final(self).wf(),
            final(self).vars@.len() >= old(self).vars@.len(),
            final(self).vars@.take(old(self).vars@.len() as int) == old(self).vars@,
            (r.0 as int) < final(self).vars@.len(),
            final(self).vars@[r.0 as int].name@ == name@,
            has_name(old(self).vars@, name@) ==> (final(self).vars@ == old(self).vars@ && r.0
                == find_name(old(self).vars@, name@)),
            !has_name(old(self).vars@, name@) ==> {
                &&& final(self).vars@.len() == old(self).vars@.len() + 1
                &&& r.0 == old(self).vars@.len()
                &&& final(self).vars@[r.0 as int].value is Null
                &&& !final(self).vars@[r.0 as int].constant
            },
    {
        proof {
            lemma_find_name(self.vars@, name@);
        }
        let n: usize = self.vars.len();
        let mut i: usize = 0;
        while i < n
            invariant
                old(self).wf(),
                self.vars@ == old(self).vars@,
                n == self.vars@.len(),
                i <= n,
                forall|j: int| 0 <= j < i ==> self.vars@[j].name@ != name@,
            decreases n - i,
        {
            if crate::text::str_eq(self.vars[i].name.as_str(), name) {
                proof {
                    lemma_find_name(self.vars@, name@);
                    if find_name(self.vars@, name@) != i {
                        assert(false);
                    }
                    assert(self.vars@.take(n as int) =~= self.vars@);
                }
                return VarHandle(i);
            }
            i = i + 1;
        }
        proof {
            lemma_find_name(self.vars@, name@);
        }
        let var = Variable::new(name.to_owned(), Value::Null);
        self.vars.push(var);
        proof {
            assert(final(self).vars@.take(n as int) =~= old(self).vars@);
            assert forall|a: int, b: int|
                0 <= a < b < self.vars@.len() implies self.vars@[a].name@
                != self.vars@[b].name@ by {
                if b < n {
                } else {
                    assert(self.vars@[b].name@ == name@);
                }
            }
        }
        VarHandle(n)
    }

    /// The handle of an existing name, without interning.
    pub fn get_handle(&self, name: &str) -> (r: Option<VarHandle>)
        ensures
            match r {
                Some(h) => has_name(self.vars@, name@) && h.0 == find_name(self.vars@, name@),
                None => !has_name(self.vars@, name@),
            },
    {
        let n: usize = self.vars.len();
        let mut i: usize = 0;
        while i < n
            invariant
                n == self.vars@.len(),
                i <= n,
                forall|j: int| 0 <= j < i ==> self.vars@[j].name@ != name@,
            decreases n - i,
        {
            if crate::text::str_eq(self.vars[i].name.as_str(), name) {
                proof {
                    lemma_find_name(self.vars@, name@);
                    if find_name(self.vars@, name@) != i {
                        assert(false);
                    }
                }
                return Some(VarHandle(i));
            }
            i = i + 1;
        }
        proof {
            lemma_find_name(self.vars@, name@);
        }
        None
    }

    /// Installs a slot under a fresh name; only construction uses it, for
    /// builtins and devices, whose names it has checked to be new.
    pub fn insert(&mut self, var: Variable) -> (r: VarHandle)
        requires
            old(self).wf(),
            !has_name(old(self).vars@, var.name@),
        ensures
            final(self).wf(),
            final(self).vars@ == old(self).vars@.push(var),
            r.0 == old(self).vars@.len(),
    {
        proof {
            lemma_find_name(self.vars@, var.name@);
        }
        let n: usize = self.vars.len();
        self.vars.push(var);
        proof {
            assert forall|a: int, b: int|
                0 <= a < b < self.vars@.len() implies self.vars@[a].name@
                != self.vars@[b].name@ by {}
        }
        VarHandle(n)
    }
}

impl VarHandle {
    pub fn get<'a>(self, vars: &'a Variables) -> (r: &'a Variable)
        requires
            self.0 < vars.vars@.len(),
        ensures
            r == vars.vars@[self.0 as int],
    {
        &vars.vars[self.0]
    }

    pub fn val(self, vars: &Variables) -> (r: Value)
        requires
            self.0 < vars.vars@.len(),
        ensures
            val_equiv(r, vars.vars@[self.0 as int].value),
    {
        vars.vars[self.0].val()
    }

    /// Writes the slot; fails on a constant slot, leaving the store
    /// unchanged. No other slot is ever touched.
    pub fn set(self, vars: &mut Variables, value: Value) -> (r: Result<(), VmError>)
        requires
            self.0 < old(vars).vars@.len(),
        ensures
            final(vars).vars@.len() == old(vars).vars@.len(),
            forall|i: int|
                0 <= i < old(vars).vars@.len() && i != self.0 ==> final(vars).vars@[i] == old(
                    vars,
                ).vars@[i],
            final(vars).vars@[self.0 as int].name@ == old(vars).vars@[self.0 as int].name@,
            final(vars).vars@[self.0 as int].constant == old(vars).vars@[self.0 as int].constant,
            old(vars).vars@[self.0 as int].constant ==> (final(vars).vars@ == old(vars).vars@ && (
            r matches Err(VmError::ConstantMutation(n)) && n@ == old(vars).vars@[self.0
                as int].name@)),
            !old(vars).vars@[self.0 as int].constant ==> (r is Ok
                && final(vars).vars@[self.0 as int].value == value),
            old(vars).wf() ==> final(vars).wf(),
    {
        let slot = &mut vars.vars[self.0];
        let r = slot.set_val(value);
        proof {
            if old(vars).vars@[self.0 as int].constant {
                assert(final(vars).vars@ =~= old(vars).vars@);
            }
        }
        r
    }

    /// Writes the slot whether or not it is constant.
    pub fn force_set(self, vars: &mut Variables, value: Value)
        requires
            self.0 < old(vars).vars@.len(),
        ensures
            final(vars).vars@.len() == old(vars).vars@.len(),
            forall|i: int|
                0 <= i < old(vars).vars@.len() && i != self.0 ==> final(vars).vars@[i] == old(
                    vars,
                ).vars@[i],
            final(vars).vars@[self.0 as int].name@ == old(vars).vars@[self.0 as int].name@,
            final(vars).vars@[self.0 as int].constant == old(vars).vars@[self.0 as int].constant,
            final(vars).vars@[self.0 as int].value == value,
            old(vars).wf() ==> final(vars).wf(),
    {
        let slot = &mut vars.vars[self.0];
        slot.force_set_val(value);
    }
}

} // verus!
