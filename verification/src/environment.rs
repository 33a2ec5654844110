//! The lexical environment the machine binds identifiers in, and the
//! realm that owns it.
//!
//! The environment is a flat scope of named bindings; its view is the map
//! from identifier to binding content.  The machine only invokes the
//! binding capability set — has / create / initialize / set — one call
//! per opcode, in instruction order; a host may also pre-create bindings
//! (including immutable ones) and read them back.

use vstd::prelude::*;

use crate::value::Value;

verus! {

/// The scope a created binding belongs to.
#[derive(Clone, Copy, Debug, PartialEq, Eq, Structural)]
pub enum VariableScope {
    Function,
    Block,
}

/// The mathematical content of one binding: its value and whether an
/// assignment may overwrite it.
pub struct BindingV {
    pub value: Value,
    pub mutable: bool,
}

/// The error an assignment to an immutable binding reports.
#[derive(Clone, Copy, Debug, PartialEq, Eq, Structural)]
pub struct BindingError;

struct Slot {
    name: String,
    value: Value,
    mutable: bool,
}

spec fn slot_binding(s: Slot) -> BindingV {
    BindingV { value: s.value, mutable: s.mutable }
}

spec fn map_of(s: Seq<Slot>) -> Map<Seq<char>, BindingV>
    decreases s.len(),
{
    if s.len() == 0 {
        Map::empty()
    } else {
        map_of(s.drop_last()).insert(s.last().name@, slot_binding(s.last()))
    }
}

spec fn unique_names(s: Seq<Slot>) -> bool {
    forall|i: int, j: int| 0 <= i < j < s.len() ==> s[i].name@ != s[j].name@
}

proof fn lemma_map_of_domain(s: Seq<Slot>)
    ensures
        forall|k: Seq<char>| #[trigger]
            map_of(s).contains_key(k) <==> exists|i: int|
                0 <= i < s.len() && #[trigger] s[i].name@ == k,
    decreases s.len(),
{
    if s.len() > 0 {
        let t = s.drop_last();
        lemma_map_of_domain(t);
        assert forall|k: Seq<char>| #[trigger] map_of(s).contains_key(k) implies (exists|i: int|
            0 <= i < s.len() && #[trigger] s[i].name@ == k) by {
            if k == s.last().name@ {
                assert(s[s.len() - 1].name@ == k);
            } else {
                assert(map_of(t).contains_key(k));
                let i = choose|i: int| 0 <= i < t.len() && #[trigger] t[i].name@ == k;
                assert(t[i] == s[i]);
                assert(s[i].name@ == k);
            }
        }
        assert forall|k: Seq<char>| (exists|i: int|
            0 <= i < s.len() && #[trigger] s[i].name@ == k) implies #[trigger] map_of(
            s,
        ).contains_key(k) by {
            let i = choose|i: int| 0 <= i < s.len() && #[trigger] s[i].name@ == k;
            if i < s.len() - 1 {
                assert(t[i] == s[i]);
                assert(t[i].name@ == k);
                assert(map_of(t).contains_key(k));
            }
        }
    }
}

proof fn lemma_map_of_at(s: Seq<Slot>, i: int)
    requires
        unique_names(s),
        0 <= i < s.len(),
    ensures
        map_of(s).contains_key(s[i].name@),
        map_of(s)[s[i].name@] == slot_binding(s[i]),
    decreases s.len(),
{
    if i == s.len() - 1 {
    } else {
        assert(unique_names(s.drop_last()));
        assert(s.drop_last()[i] == s[i]);
        lemma_map_of_at(s.drop_last(), i);
        assert(s[i].name@ != s.last().name@);
    }
}

proof fn lemma_map_of_update(s: Seq<Slot>, i: int, slot: Slot)
    requires
        unique_names(s),
        0 <= i < s.len(),
        slot.name@ == s[i].name@,
    ensures
        map_of(s.update(i, slot)) == map_of(s).insert(slot.name@, slot_binding(slot)),
    decreases s.len(),
{
    let t = s.update(i, slot);
    if i == s.len() - 1 {
        assert(t.drop_last() =~= s.drop_last());
        assert(t.last() == slot);
        assert(map_of(t) == map_of(s.drop_last()).insert(slot.name@, slot_binding(slot)));
        assert(map_of(s.drop_last()).insert(slot.name@, slot_binding(slot)) =~= map_of(s).insert(
            slot.name@,
            slot_binding(slot),
        ));
    } else {
        assert(unique_names(s.drop_last()));
        assert(s.drop_last()[i] == s[i]);
        lemma_map_of_update(s.drop_last(), i, slot);
        assert(t.drop_last() =~= s.drop_last().update(i, slot));
        assert(t.last() == s.last());
        assert(s[i].name@ != s.last().name@);
        assert(map_of(t) == map_of(s.drop_last().update(i, slot)).insert(
            s.last().name@,
            slot_binding(s.last()),
        ));
        assert(map_of(s.drop_last()).insert(slot.name@, slot_binding(slot)).insert(
            s.last().name@,
            slot_binding(s.last()),
        ) =~= map_of(s.drop_last()).insert(s.last().name@, slot_binding(s.last())).insert(
            slot.name@,
            slot_binding(slot),
        ));
    }
}

/// A lexical environment: a scope of named bindings.
pub struct Environment {
    slots: Vec<Slot>,
}

impl View for Environment {
    type V = Map<Seq<char>, BindingV>;

    closed spec fn view(&self) -> Map<Seq<char>, BindingV> {
        map_of(self.slots@)
    }
}

impl Environment {
    /// Well-formedness: no identifier is bound by two slots.  Every
    /// constructor establishes it and every method preserves it.
    pub closed spec fn wf(&self) -> bool {
        unique_names(self.slots@)
    }

    /// An environment with no bindings.
    pub fn new() -> (e: Environment)
        ensures
            e.wf(),
            e@ == Map::<Seq<char>, BindingV>::empty(),
    {
        Environment { slots: Vec::new() }
    }

    /// The index of the slot bound to `name`, if any.
    fn find(&self, name: &String) -> (r: Option<usize>)
        requires
            self.wf(),
        ensures
            match r {
                Some(i) => i < self.slots@.len() && self.slots@[i as int].name@ == name@
                    && self@.contains_key(name@) && self@[name@] == slot_binding(
                    self.slots@[i as int],
                ),
                None => !self@.contains_key(name@),
            },
    {
        let n = self.slots.len();
        let mut i: usize = 0;
        while i < n
            invariant
                n == self.slots@.len(),
                i <= n,
                unique_names(self.slots@),
                forall|j: int| 0 <= j < i ==> self.slots@[j].name@ != name@,
            decreases n - i,
        {
            if self.slots[i].name == *name {
                proof {
                    lemma_map_of_at(self.slots@, i as int);
                }
                return Some(i);
            }
            i += 1;
        }
        proof {
            lemma_map_of_domain(self.slots@);
        }
        None
    }

    /// Whether the environment has a binding for `name`.
    pub fn has_binding(&self, name: &String) -> (r: bool)
        requires
            self.wf(),
        ensures
            r == self@.contains_key(name@),
    {
        match self.find(name) {
            Some(_) => true,
            None => false,
        }
    }

    /// The value currently bound to `name`, if any.
    pub fn get_binding_value(&self, name: &String) -> (r: Option<Value>)
        requires
            self.wf(),
        ensures
            r == if self@.contains_key(name@) {
                Some(self@[name@].value)
            } else {
                None::<Value>
            },
    {
        match self.find(name) {
            Some(i) => Some(self.slots[i].value),
            None => None,
        }
    }

    /// Creates a new uninitialized mutable binding for `name`.  The core
    /// never deletes bindings and only uses function scope, so the two
    /// trailing capability arguments are accepted and not recorded.
    pub fn create_mutable_binding(&mut self, name: String, _deletable: bool, _scope: VariableScope)
        requires
            old(self).wf(),
            !old(self)@.contains_key(name@),
        ensures
            final(self).wf(),
            final(self)@ == old(self)@.insert(
                name@,
                BindingV { value: Value::Undefined, mutable: true },
            ),
    {
        self.insert_slot(name, Value::Undefined, true);
    }

    /// Creates a new uninitialized immutable binding for `name`: a later
    /// assignment to it reports a binding error.
    pub fn create_immutable_binding(&mut self, name: String)
        requires
            old(self).wf(),
            !old(self)@.contains_key(name@),
        ensures
            final(self).wf(),
            final(self)@ == old(self)@.insert(
                name@,
                BindingV { value: Value::Undefined, mutable: false },
            ),
    {
        self.insert_slot(name, Value::Undefined, false);
    }

    fn insert_slot(&mut self, name: String, value: Value, mutable: bool)
        requires
            old(self).wf(),
            !old(self)@.contains_key(name@),
        ensures
            final(self).wf(),
            final(self)@ == old(self)@.insert(name@, BindingV { value, mutable }),
    {
        proof {
            lemma_map_of_domain(self.slots@);
        }
        let ghost s0 = self.slots@;
        self.slots.push(Slot { name, value, mutable });
        proof {
            assert(self.slots@.drop_last() =~= s0);
            assert(forall|i: int| 0 <= i < s0.len() ==> s0[i].name@ != self.slots@.last().name@);
            assert(unique_names(self.slots@));
        }
    }

    /// Gives the existing binding for `name` its initial value, keeping
    /// its mutability.
    pub fn initialize_binding(&mut self, name: &String, value: Value)
        requires
            old(self).wf(),
            old(self)@.contains_key(name@),
        ensures
            final(self).wf(),
            final(self)@ == old(self)@.insert(
                name@,
                BindingV { value, mutable: old(self)@[name@].mutable },
            ),
    {
        match self.find(name) {
            Some(i) => {
                let slot_name = self.slots[i].name.clone();
                let mutable = self.slots[i].mutable;
                let ghost s0 = self.slots@;
                self.slots[i] = Slot { name: slot_name, value, mutable };
                proof {
                    lemma_map_of_update(s0, i as int, self.slots@[i as int]);
                    assert(unique_names(self.slots@));
                }
            },
            None => {
                proof {
                    assert(false);
                }
            },
        }
    }

    /// Overwrites the value of the existing binding for `name` if it is
    /// mutable; reports a binding error and changes nothing if it is
    /// immutable.  The strictness flag does not alter either path.
    pub fn set_mutable_binding(&mut self, name: &String, value: Value, _strict: bool) -> (r: Result<
        (),
        BindingError,
    >)
        requires
            old(self).wf(),
            old(self)@.contains_key(name@),
        ensures
            final(self).wf(),
            old(self)@[name@].mutable ==> r is Ok && final(self)@ == old(self)@.insert(
                name@,
                BindingV { value, mutable: true },
            ),
            !old(self)@[name@].mutable ==> r is Err && final(self)@ == old(self)@,
    {
        match self.find(name) {
            Some(i) => {
                if self.slots[i].mutable {
                    let slot_name = self.slots[i].name.clone();
                    let ghost s0 = self.slots@;
                    self.slots[i] = Slot { name: slot_name, value, mutable: true };
                    proof {
                        lemma_map_of_update(s0, i as int, self.slots@[i as int]);
                        assert(unique_names(self.slots@));
                    }
                    Ok(())
                } else {
                    Err(BindingError)
                }
            },
            None => {
                proof {
                    assert(false);
                }
                Err(BindingError)
            },
        }
    }
}

/// The realm a machine executes in: the owner of the active environment.
pub struct Realm {
    pub environment: Environment,
}

impl Realm {
    /// A realm with a fresh, empty environment.
    pub fn create() -> (r: Realm)
        ensures
            r.environment.wf(),
            r.environment@ == Map::<Seq<char>, BindingV>::empty(),
    {
        Realm { environment: Environment::new() }
    }
}

} // verus!
