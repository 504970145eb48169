//! The entity store: entity allocation, per-kind component tables, typed
//! attachment, lookup with bounded prototype fallback, removal and
//! destruction.
use vstd::prelude::*;

use crate::components::{
    kind_at, lemma_kind_at, lemma_table_index, AnyComponent, Component, ComponentType, Prototype,
    NUM_COMPONENT_TYPES,
};

verus! {

/// An opaque entity identifier. Entities carry no data of their own.
#[derive(Clone, Copy, Debug, PartialEq, Eq, PartialOrd, Hash, Structural)]
pub struct Entity {
    pub id: i32,
}

impl Entity {
    fn new(id: i32) -> (r: Self)
        ensures
            r.id == id,
    {
        Self { id }
    }
}

/// A table keyed by entity, holding at most one value per entity. The store
/// keeps one per component kind, and one for entity names.
pub struct ComponentTable<V> {
    rows: Vec<(Entity, V)>,
}

impl<V> ComponentTable<V> {
    /// No entity has two rows.
    pub closed spec fn wf(&self) -> bool {
        forall|i: int, j: int|
            0 <= i < j < self.rows@.len() ==> #[trigger] self.rows@[i].0 != #[trigger] self.rows@[j].0
    }

    spec fn has_row(&self, e: Entity) -> bool {
        exists|i: int| 0 <= i < self.rows@.len() && #[trigger] self.rows@[i].0 == e
    }

    spec fn row_of(&self, e: Entity) -> int {
        choose|i: int| 0 <= i < self.rows@.len() && #[trigger] self.rows@[i].0 == e
    }

    /// The table as a map from entity to its component.
    pub closed spec fn view(&self) -> Map<Entity, V> {
        Map::new(|e: Entity| self.has_row(e), |e: Entity| self.rows@[self.row_of(e)].1)
    }

    proof fn lemma_row(&self, i: int)
        requires
            self.wf(),
            0 <= i < self.rows@.len(),
        ensures
            self@.contains_key(self.rows@[i].0),
            self@[self.rows@[i].0] == self.rows@[i].1,
    {
        let e = self.rows@[i].0;
        assert(self.has_row(e));
        let j = self.row_of(e);
        assert(self.rows@[j].0 == e);
        if i < j {
            assert(self.rows@[i].0 != self.rows@[j].0);
        } else if j < i {
            assert(self.rows@[j].0 != self.rows@[i].0);
        }
    }

    proof fn lemma_rows(&self)
        requires
            self.wf(),
        ensures
            forall|i: int|
                0 <= i < self.rows@.len() ==> self@.contains_key(#[trigger] self.rows@[i].0)
                    && self@[self.rows@[i].0] == self.rows@[i].1,
            forall|e: Entity|
                self@.contains_key(e) ==> exists|i: int|
                    0 <= i < self.rows@.len() && #[trigger] self.rows@[i].0 == e,
    {
        assert forall|i: int| 0 <= i < self.rows@.len() implies self@.contains_key(
            #[trigger] self.rows@[i].0,
        ) && self@[self.rows@[i].0] == self.rows@[i].1 by {
            self.lemma_row(i);
        }
    }

    pub fn new() -> (r: Self)
        ensures
            r.wf(),
            r@ == Map::<Entity, V>::empty(),
    {
        let r = Self { rows: Vec::new() };
        assert(r@ =~= Map::<Entity, V>::empty());
        r
    }

    fn find(&self, e: Entity) -> (r: Option<usize>)
        requires
            self.wf(),
        ensures
            match r {
                Some(i) => i < self.rows@.len() && self.rows@[i as int].0 == e,
                None => !self@.contains_key(e),
            },
    {
        let mut i: usize = 0;
        while i < self.rows.len()
            invariant
                i <= self.rows@.len(),
                forall|j: int| 0 <= j < i ==> #[trigger] self.rows@[j].0 != e,
            decreases self.rows@.len() - i,
        {
            if self.rows[i].0 == e {
                return Some(i);
            }
            i = i + 1;
        }
        None
    }

    pub fn contains_key(&self, e: Entity) -> (r: bool)
        requires
            self.wf(),
        ensures
            r == self@.contains_key(e),
    {
        match self.find(e) {
            Some(i) => {
                proof {
                    self.lemma_row(i as int);
                }
                true
            },
            None => false,
        }
    }

    pub fn get(&self, e: Entity) -> (r: Option<&V>)
        requires
            self.wf(),
        ensures
            match r {
                Some(c) => self@.contains_key(e) && self@[e] == *c,
                None => !self@.contains_key(e),
            },
    {
        match self.find(e) {
            Some(i) => {
                proof {
                    self.lemma_row(i as int);
                }
                Some(&self.rows[i].1)
            },
            None => None,
        }
    }

    /// Replacing the value of row `i` keeps the table well formed and
    /// changes its view at that row's entity only.
    proof fn lemma_update_value(&self, i: int)
        requires
            self.wf(),
            0 <= i < self.rows@.len(),
        ensures
            forall|other: Self|
                #![trigger other.wf()]
                #![trigger other.view()]
                other.rows@ == self.rows@.update(i, (self.rows@[i].0, other.rows@[i].1)) ==> other.wf()
                    && other@ == self@.insert(self.rows@[i].0, other.rows@[i].1),
    {
        assert forall|other: Self|
            #![trigger other.wf()]
            #![trigger other.view()]
            other.rows@ == self.rows@.update(i, (self.rows@[i].0, other.rows@[i].1)) implies other.wf()
                && other@ == self@.insert(self.rows@[i].0, other.rows@[i].1) by {
            let e = self.rows@[i].0;
            let v = other.rows@[i].1;
            assert(other.wf()) by {
                assert forall|a: int, b: int| 0 <= a < b < other.rows@.len() implies
                    #[trigger] other.rows@[a].0 != #[trigger] other.rows@[b].0 by {
                    assert(self.rows@[a].0 != self.rows@[b].0);
                }
            }
            self.lemma_rows();
            other.lemma_rows();
            other.lemma_row(i);
            assert forall|x: Entity| x != e && self@.contains_key(x) implies
                other@.contains_key(x) && other@[x] == self@[x] by {
                let j = choose|j: int| 0 <= j < self.rows@.len() && #[trigger] self.rows@[j].0 == x;
                self.lemma_row(j);
                assert(other.rows@[j] == self.rows@[j]);
                other.lemma_row(j);
            }
            assert forall|x: Entity| other@.contains_key(x) && x != e implies self@.contains_key(x) by {
                let j = choose|j: int| 0 <= j < other.rows@.len() && #[trigger] other.rows@[j].0 == x;
                assert(other.rows@[j] == self.rows@[j]);
                self.lemma_row(j);
            }
            assert(other@ =~= self@.insert(e, v));
        }
    }

    /// Mutable access to the entry of `e`; writes through it update the table.
    pub fn get_mut(&mut self, e: Entity) -> (r: Option<&mut V>)
        requires
            old(self).wf(),
        ensures
            match r {
                Some(c) => {
                    &&& old(self)@.contains_key(e)
                    &&& *c == old(self)@[e]
                    &&& final(self).wf()
                    &&& final(self)@ == old(self)@.insert(e, *final(c))
                },
                None => !old(self)@.contains_key(e) && *final(self) == *old(self),
            },
    {
        match self.find(e) {
            Some(i) => {
                proof {
                    self.lemma_row(i as int);
                    self.lemma_update_value(i as int);
                }
                Some(&mut self.rows[i].1)
            },
            None => None,
        }
    }

    /// Inserts or overwrites the component of `e`, returning the previous one.
    pub fn insert(&mut self, e: Entity, c: V) -> (r: Option<V>)
        requires
            old(self).wf(),
        ensures
            final(self).wf(),
            final(self)@ == old(self)@.insert(e, c),
            r == old(self)@.get(e),
    {
        proof {
            self.lemma_rows();
        }
        match self.find(e) {
            Some(i) => {
                proof {
                    self.lemma_row(i as int);
                }
                let mut prev = c;
                std::mem::swap(&mut self.rows[i].1, &mut prev);
                proof {
                    assert(self.rows@ == old(self).rows@.update(i as int, (e, c)));
                    assert(self.wf());
                    self.lemma_rows();
                    self.lemma_row(i as int);
                    assert forall|x: Entity| x != e && old(self)@.contains_key(x) implies
                        self@.contains_key(x) && self@[x] == old(self)@[x] by {
                        let j = choose|j: int| 0 <= j < old(self).rows@.len() && #[trigger] old(self).rows@[j].0 == x;
                        old(self).lemma_row(j);
                        assert(self.rows@[j] == old(self).rows@[j]);
                    }
                    assert forall|x: Entity| self@.contains_key(x) && x != e implies
                        old(self)@.contains_key(x) by {
                        let j = choose|j: int| 0 <= j < self.rows@.len() && #[trigger] self.rows@[j].0 == x;
                        assert(old(self).rows@[j] == self.rows@[j]);
                        old(self).lemma_row(j);
                    }
                    assert(self@ =~= old(self)@.insert(e, c));
                }
                Some(prev)
            },
            None => {
                self.rows.push((e, c));
                proof {
                    assert(self.wf()) by {
                        assert forall|a: int, b: int| 0 <= a < b < self.rows@.len() implies
                            #[trigger] self.rows@[a].0 != #[trigger] self.rows@[b].0 by {
                            if b == old(self).rows@.len() {
                                old(self).lemma_row(a);
                            } else {
                                assert(old(self).rows@[a].0 != old(self).rows@[b].0);
                            }
                        }
                    }
                    let n = old(self).rows@.len() as int;
                    self.lemma_row(n);
                    assert forall|x: Entity| x != e && old(self)@.contains_key(x) implies
                        self@.contains_key(x) && self@[x] == old(self)@[x] by {
                        let j = choose|j: int| 0 <= j < old(self).rows@.len() && #[trigger] old(self).rows@[j].0 == x;
                        old(self).lemma_row(j);
                        assert(self.rows@[j] == old(self).rows@[j]);
                        self.lemma_row(j);
                    }
                    assert forall|x: Entity| self@.contains_key(x) && x != e implies
                        old(self)@.contains_key(x) by {
                        let j = choose|j: int| 0 <= j < self.rows@.len() && #[trigger] self.rows@[j].0 == x;
                        assert(j != n);
                        assert(old(self).rows@[j] == self.rows@[j]);
                        old(self).lemma_row(j);
                    }
                    assert(self@ =~= old(self)@.insert(e, c));
                }
                None
            },
        }
    }

    /// Removes the component of `e`, returning it.
    pub fn remove(&mut self, e: Entity) -> (r: Option<V>)
        requires
            old(self).wf(),
        ensures
            final(self).wf(),
            final(self)@ == old(self)@.remove(e),
            r == old(self)@.get(e),
    {
        proof {
            self.lemma_rows();
        }
        match self.find(e) {
            Some(i) => {
                proof {
                    self.lemma_row(i as int);
                }
                let row = self.rows.remove(i);
                proof {
                    assert(self.rows@ == old(self).rows@.remove(i as int));
                    assert(self.wf()) by {
                        assert forall|a: int, b: int| 0 <= a < b < self.rows@.len() implies
                            #[trigger] self.rows@[a].0 != #[trigger] self.rows@[b].0 by {
                            let a0 = if a < i { a } else { a + 1 };
                            let b0 = if b < i { b } else { b + 1 };
                            assert(old(self).rows@[a0].0 != old(self).rows@[b0].0);
                        }
                    }
                    self.lemma_rows();
                    assert forall|x: Entity| x != e && old(self)@.contains_key(x) implies
                        self@.contains_key(x) && self@[x] == old(self)@[x] by {
                        let j = choose|j: int| 0 <= j < old(self).rows@.len() && #[trigger] old(self).rows@[j].0 == x;
                        old(self).lemma_row(j);
                        let j2 = if j < i { j } else { j - 1 };
                        assert(self.rows@[j2] == old(self).rows@[j]);
                    }
                    assert forall|x: Entity| self@.contains_key(x) implies
                        x != e && old(self)@.contains_key(x) by {
                        let j = choose|j: int| 0 <= j < self.rows@.len() && #[trigger] self.rows@[j].0 == x;
                        let j0 = if j < i { j } else { j + 1 };
                        assert(old(self).rows@[j0] == self.rows@[j]);
                        old(self).lemma_row(j0);
                        assert(j0 != i);
                    }
                    assert(self@ =~= old(self)@.remove(e));
                }
                Some(row.1)
            },
            None => {
                proof {
                    assert(old(self)@.remove(e) =~= old(self)@);
                }
                None
            },
        }
    }

    /// The entities of the table, in row order.
    pub closed spec fn order(&self) -> Seq<Entity> {
        self.rows@.map_values(|r: (Entity, V)| r.0)
    }

    /// The row order lists every entity of the table exactly once.
    pub proof fn lemma_order(&self)
        requires
            self.wf(),
        ensures
            self.order().no_duplicates(),
            forall|x: Entity| #[trigger] self.order().contains(x) <==> self@.contains_key(x),
            forall|i: int|
                0 <= i < self.order().len() ==> self@.contains_key(#[trigger] self.order()[i]),
    {
        self.lemma_rows();
        let o = self.order();
        assert forall|a: int, b: int| 0 <= a < o.len() && 0 <= b < o.len() && a != b implies o[a] != o[b] by {
            if a < b {
                assert(self.rows@[a].0 != self.rows@[b].0);
            } else {
                assert(self.rows@[b].0 != self.rows@[a].0);
            }
        }
        assert forall|x: Entity| self@.contains_key(x) implies #[trigger] o.contains(x) by {
            let j = choose|j: int| 0 <= j < self.rows@.len() && #[trigger] self.rows@[j].0 == x;
            assert(o[j] == x);
        }
        assert forall|x: Entity| #[trigger] o.contains(x) implies self@.contains_key(x) by {
            let j = choose|j: int| 0 <= j < o.len() && o[j] == x;
            self.lemma_row(j);
        }
    }

    /// Every stored value, one per entity, in row order.
    pub fn values(&self) -> (r: Vec<&V>)
        requires
            self.wf(),
        ensures
            r@.len() == self.order().len(),
            forall|i: int| 0 <= i < r@.len() ==> *#[trigger] r@[i] == self@[self.order()[i]],
    {
        let mut out: Vec<&V> = Vec::new();
        let mut i: usize = 0;
        while i < self.rows.len()
            invariant
                self.wf(),
                i <= self.rows@.len(),
                out@.len() == i,
                forall|j: int| 0 <= j < i ==> *#[trigger] out@[j] == self.rows@[j].1,
            decreases self.rows@.len() - i,
        {
            out.push(&self.rows[i].1);
            i = i + 1;
        }
        proof {
            assert forall|j: int| 0 <= j < out@.len() implies *#[trigger] out@[j] == self@[self.order()[j]] by {
                self.lemma_row(j);
            }
        }
        out
    }

    /// The number of entries equals the number of rows.
    proof fn lemma_len(&self)
        requires
            self.wf(),
        ensures
            self@.len() == self.rows@.len(),
    {
        let keys = self.rows@.map_values(|r: (Entity, V)| r.0);
        self.lemma_rows();
        assert(keys.no_duplicates()) by {
            assert forall|a: int, b: int| 0 <= a < keys.len() && 0 <= b < keys.len() && a != b implies
                keys[a] != keys[b] by {
                if a < b {
                    assert(self.rows@[a].0 != self.rows@[b].0);
                } else {
                    assert(self.rows@[b].0 != self.rows@[a].0);
                }
            }
        }
        assert(keys.to_set() =~= self@.dom()) by {
            assert forall|x: Entity| self@.dom().contains(x) implies keys.to_set().contains(x) by {
                let j = choose|j: int| 0 <= j < self.rows@.len() && #[trigger] self.rows@[j].0 == x;
                assert(keys[j] == x);
            }
        }
        keys.unique_seq_to_set();
    }

    /// Every entity that has a row, each once.
    pub fn keys(&self) -> (r: Vec<Entity>)
        requires
            self.wf(),
        ensures
            r@ == self.order(),
            r@.no_duplicates(),
            forall|x: Entity| r@.contains(x) <==> self@.contains_key(x),
    {
        proof {
            self.lemma_rows();
        }
        let mut out: Vec<Entity> = Vec::new();
        let mut i: usize = 0;
        while i < self.rows.len()
            invariant
                self.wf(),
                i <= self.rows@.len(),
                out@.len() == i,
                forall|j: int| 0 <= j < i ==> #[trigger] out@[j] == self.rows@[j].0,
            decreases self.rows@.len() - i,
        {
            out.push(self.rows[i].0);
            i = i + 1;
        }
        proof {
            assert forall|a: int, b: int| 0 <= a < out@.len() && 0 <= b < out@.len() && a != b implies
                out@[a] != out@[b] by {
                if a < b {
                    assert(self.rows@[a].0 != self.rows@[b].0);
                } else {
                    assert(self.rows@[b].0 != self.rows@[a].0);
                }
            }
            assert forall|x: Entity| self@.contains_key(x) implies out@.contains(x) by {
                let j = choose|j: int| 0 <= j < self.rows@.len() && #[trigger] self.rows@[j].0 == x;
                assert(out@[j] == x);
            }
            assert(out@ =~= self.order());
        }
        out
    }
}

impl ComponentTable<String> {
    /// The first row whose name equals `name`.
    fn find_by_value(&self, name: &String) -> (r: Option<(Entity, String)>)
        requires
            self.wf(),
        ensures
            match r {
                Some((e, n)) => self@.contains_key(e) && self@[e]@ == name@ && n@ == name@,
                None => forall|e: Entity| #[trigger] self@.contains_key(e) ==> self@[e]@ != name@,
            },
    {
        let mut i: usize = 0;
        while i < self.rows.len()
            invariant
                self.wf(),
                i <= self.rows@.len(),
                forall|j: int| 0 <= j < i ==> (#[trigger] self.rows@[j]).1@ != name@,
            decreases self.rows@.len() - i,
        {
            if self.rows[i].1 == *name {
                proof {
                    self.lemma_row(i as int);
                }
                return Some((self.rows[i].0, self.rows[i].1.clone()));
            }
            i = i + 1;
        }
        proof {
            assert forall|e: Entity| #[trigger] self@.contains_key(e) implies self@[e]@ != name@ by {
                let j = choose|j: int| 0 <= j < self.rows@.len() && #[trigger] self.rows@[j].0 == e;
                self.lemma_row(j);
            }
        }
        None
    }
}

/// A channel end on which the store's listeners receive messages.
///
/// Relies on `std::sync::mpsc::Sender`, held here only to be kept: the store
/// never looks inside it.
#[verifier::external_type_specification]
#[verifier::external_body]
#[verifier::reject_recursive_types(T)]
pub struct ExSender<T>(std::sync::mpsc::Sender<T>);

/// An entity together with its name and the prototype it extends.
pub struct GameObject {
    entity: Entity,
    name: String,
    prototype: Option<Entity>,
}

/// Longest prototype chain that a component lookup follows.
pub const MAX_PROTOTYPE_DEPTH: u32 = 8;

/// The single source of truth for which entities exist and what is attached
/// to each.
pub struct EntityManager {
    entities: Vec<Entity>,
    next_id: i32,
    entity_names: ComponentTable<String>,
    component_data_tables: Vec<ComponentTable<AnyComponent>>,
    listeners: Vec<std::sync::mpsc::Sender<String>>,
}

impl EntityManager {
    /// Well-formedness: one table per kind, each holding only its own kind;
    /// live entities are distinct and were all issued by this store.
    pub closed spec fn wf(&self) -> bool {
        &&& self.component_data_tables@.len() == NUM_COMPONENT_TYPES
        &&& forall|i: int|
            0 <= i < NUM_COMPONENT_TYPES ==> #[trigger] self.component_data_tables@[i].wf()
        &&& forall|i: int, e: Entity|
            0 <= i < NUM_COMPONENT_TYPES && #[trigger] self.component_data_tables@[i]@.contains_key(e)
                ==> self.component_data_tables@[i]@[e].kind() == kind_at(i)
        &&& self.entity_names.wf()
        &&& self.entities@.no_duplicates()
        &&& 0 <= self.next_id
        &&& forall|j: int| 0 <= j < self.entities@.len() ==> #[trigger] self.entities@[j].id < self.next_id
    }

    /// The id the next created entity receives.
    pub closed spec fn next_id(&self) -> int {
        self.next_id as int
    }

    /// Every id issued so far.
    pub open spec fn issued(&self) -> Set<Entity> {
        Set::new(|e: Entity| 0 <= e.id < self.next_id())
    }

    /// Live entities, in creation order.
    pub closed spec fn live(&self) -> Seq<Entity> {
        self.entities@
    }

    /// Number of subscribed listeners.
    pub closed spec fn listener_count(&self) -> nat {
        self.listeners@.len()
    }

    /// Entity names.
    pub closed spec fn names(&self) -> Map<Entity, String> {
        self.entity_names@
    }

    /// The table of kind `k`.
    pub closed spec fn table(&self, k: ComponentType) -> Map<Entity, AnyComponent> {
        self.component_data_tables@[k.table_index()]@
    }

    /// The entities bearing kind `k`, in the order they are listed.
    pub closed spec fn bearers(&self, k: ComponentType) -> Seq<Entity> {
        self.component_data_tables@[k.table_index()].order()
    }

    /// The listing of bearers holds each bearer of `k` exactly once.
    pub proof fn lemma_bearers(&self, k: ComponentType)
        requires
            self.wf(),
        ensures
            self.bearers(k).no_duplicates(),
            forall|x: Entity| #[trigger] self.bearers(k).contains(x) <==> self.table(k).contains_key(x),
    {
        lemma_table_index(k);
        self.component_data_tables@[k.table_index()].lemma_order();
    }

    /// The component of kind `k` attached to `e` itself.
    pub open spec fn direct(&self, e: Entity, k: ComponentType) -> Option<AnyComponent> {
        self.table(k).get(e)
    }

    /// The entity that `e` names as its prototype, if any.
    pub open spec fn prototype_of(&self, e: Entity) -> Option<Entity> {
        match self.direct(e, ComponentType::Prototype) {
            Some(AnyComponent::Prototype(p)) => Some(p.prototype),
            _ => None,
        }
    }

    /// Lookup of kind `k` on `e`, falling back along the prototype chain
    /// for at most `fuel` steps.
    pub open spec fn resolve(&self, e: Entity, k: ComponentType, fuel: nat) -> Option<AnyComponent>
        decreases fuel,
    {
        match self.direct(e, k) {
            Some(c) => Some(c),
            None => if fuel == 0 {
                None
            } else {
                match self.prototype_of(e) {
                    Some(p) => self.resolve(p, k, (fuel - 1) as nat),
                    None => None,
                }
            },
        }
    }

    /// The entity whose own component a lookup of kind `k` on `e` finds,
    /// following at most `fuel` prototype links.
    pub open spec fn resolve_owner(&self, e: Entity, k: ComponentType, fuel: nat) -> Option<Entity>
        decreases fuel,
    {
        if self.table(k).contains_key(e) {
            Some(e)
        } else if fuel == 0 {
            None
        } else {
            match self.prototype_of(e) {
                Some(p) => self.resolve_owner(p, k, (fuel - 1) as nat),
                None => None,
            }
        }
    }

    /// The entity whose component `get_component` returns.
    pub open spec fn lookup_owner(&self, e: Entity, k: ComponentType) -> Option<Entity> {
        self.resolve_owner(e, k, MAX_PROTOTYPE_DEPTH as nat)
    }

    /// A lookup finds the component of the entity that owns it.
    pub proof fn lemma_resolve_owner(&self, e: Entity, k: ComponentType, fuel: nat)
        ensures
            match self.resolve_owner(e, k, fuel) {
                Some(o) => self.table(k).contains_key(o) && self.resolve(e, k, fuel) == Some(self.table(k)[o]),
                None => self.resolve(e, k, fuel) is None,
            },
        decreases fuel,
    {
        if !self.table(k).contains_key(e) && fuel > 0 {
            if let Some(p) = self.prototype_of(e) {
                self.lemma_resolve_owner(p, k, (fuel - 1) as nat);
            }
        }
    }

    /// What `get_component` returns.
    pub open spec fn lookup(&self, e: Entity, k: ComponentType) -> Option<AnyComponent> {
        self.resolve(e, k, MAX_PROTOTYPE_DEPTH as nat)
    }

    /// `post` is `self` with `c` attached to `entity` under `c`'s kind,
    /// replacing any component of that kind it had.
    pub open spec fn added(&self, post: &EntityManager, entity: Entity, c: AnyComponent) -> bool {
        &&& post.wf()
        &&& post.same_entities(self)
        &&& forall|k: ComponentType|
            #[trigger] post.table(k) == if k == c.kind() {
                self.table(k).insert(entity, c)
            } else {
                self.table(k)
            }
    }

    /// `post` is `self` without `entity`'s own component of kind `k`.
    pub open spec fn removed(&self, post: &EntityManager, entity: Entity, k: ComponentType) -> bool {
        &&& post.wf()
        &&& post.same_entities(self)
        &&& forall|k2: ComponentType|
            #[trigger] post.table(k2) == if k2 == k {
                self.table(k2).remove(entity)
            } else {
                self.table(k2)
            }
    }

    /// `post` is `self` with `entity` gone from every table and from the
    /// live list.
    pub open spec fn killed(&self, post: &EntityManager, entity: Entity) -> bool {
        &&& post.wf()
        &&& post.next_id() == self.next_id()
        &&& post.names() == self.names()
        &&& post.listener_count() == self.listener_count()
        &&& post.live().to_set() == self.live().to_set().remove(entity)
        &&& if self.live().contains(entity) {
            exists|j: int| 0 <= j < self.live().len() && self.live()[j] == entity && post.live() == self.live().remove(j)
        } else {
            post.live() == self.live()
        }
        &&& forall|k: ComponentType| #[trigger] post.table(k) == self.table(k).remove(entity)
    }

    /// `listing` is a valid answer of `get_entities_with_components(k)`.
    pub open spec fn lists_bearers(&self, k: ComponentType, listing: Seq<Entity>) -> bool {
        &&& listing.no_duplicates()
        &&& forall|e: Entity| #[trigger] listing.contains(e) <==> self.table(k).contains_key(e)
    }

    /// `self` and `other` agree on everything but the component tables.
    pub open spec fn same_entities(&self, other: &EntityManager) -> bool {
        &&& self.live() == other.live()
        &&& self.next_id() == other.next_id()
        &&& self.names() == other.names()
        &&& self.listener_count() == other.listener_count()
    }

    pub fn new() -> (r: Self)
        ensures
            r.wf(),
            r.next_id() == 0,
            r.live() == Seq::<Entity>::empty(),
            r.names() == Map::<Entity, String>::empty(),
            forall|k: ComponentType| #[trigger] r.table(k) == Map::<Entity, AnyComponent>::empty(),
    {
        let mut tables: Vec<ComponentTable<AnyComponent>> = Vec::new();
        let mut i: usize = 0;
        while i < NUM_COMPONENT_TYPES
            invariant
                i <= NUM_COMPONENT_TYPES,
                tables@.len() == i,
                forall|j: int| 0 <= j < i ==> #[trigger] tables@[j].wf(),
                forall|j: int| 0 <= j < i ==> #[trigger] tables@[j].view() == Map::<Entity, AnyComponent>::empty(),
            decreases NUM_COMPONENT_TYPES - i,
        {
            tables.push(ComponentTable::new());
            i = i + 1;
        }
        let r = Self {
            entities: Vec::new(),
            next_id: 0,
            entity_names: ComponentTable::new(),
            component_data_tables: tables,
            listeners: Vec::new(),
        };
        proof {
            assert forall|k: ComponentType| #[trigger] r.table(k) == Map::<Entity, AnyComponent>::empty() by {
                lemma_table_index(k);
                assert(tables@[k.table_index()].view() == Map::<Entity, AnyComponent>::empty());
            }
            assert forall|i: int, e: Entity|
                0 <= i < NUM_COMPONENT_TYPES && #[trigger] r.component_data_tables@[i]@.contains_key(e)
                    implies r.component_data_tables@[i]@[e].kind() == kind_at(i) by {
                assert(tables@[i].view() == Map::<Entity, AnyComponent>::empty());
            }
        }
        r
    }

    /// Allocates a fresh entity id, never issued before by this store.
    pub fn create_entity(&mut self) -> (r: Entity)
        requires
            old(self).wf(),
            old(self).next_id() < i32::MAX,
        ensures
            final(self).wf(),
            r.id == old(self).next_id(),
            !old(self).issued().contains(r),
            final(self).issued() == old(self).issued().insert(r),
            final(self).next_id() == old(self).next_id() + 1,
            final(self).live() == old(self).live().push(r),
            final(self).names() == old(self).names(),
            forall|k: ComponentType| #[trigger] final(self).table(k) == old(self).table(k),
    {
        let entity = Entity::new(self.next_id);
        self.entities.push(entity);
        self.next_id = self.next_id + 1;
        proof {
            assert(!old(self).entities@.contains(entity)) by {
                if old(self).entities@.contains(entity) {
                    let j = choose|j: int| 0 <= j < old(self).entities@.len() && old(self).entities@[j] == entity;
                    assert(old(self).entities@[j].id < old(self).next_id);
                }
            }
            assert(self.issued() =~= old(self).issued().insert(entity));
        }
        entity
    }

    /// Whether another entity id can still be issued.
    pub fn can_create_entity(&self) -> (r: bool)
        requires
            self.wf(),
        ensures
            r == (self.next_id() < i32::MAX),
    {
        self.next_id < i32::MAX
    }

    /// Issued ids are non-negative `i32` values.
    pub proof fn lemma_next_id_range(&self)
        requires
            self.wf(),
        ensures
            0 <= self.next_id() <= i32::MAX,
    {
    }

    /// A component found by `lookup` has the kind it was looked up under.
    pub proof fn lemma_lookup_kind(&self, e: Entity, k: ComponentType, fuel: nat)
        requires
            self.wf(),
        ensures
            self.resolve(e, k, fuel) matches Some(c) ==> c.kind() == k,
        decreases fuel,
    {
        lemma_table_index(k);
        if self.direct(e, k) is None && fuel > 0 {
            if let Some(p) = self.prototype_of(e) {
                self.lemma_lookup_kind(p, k, (fuel - 1) as nat);
            }
        }
    }

    /// A component that `entity` bears itself is what a lookup finds.
    pub proof fn lemma_direct_is_lookup(&self, e: Entity, k: ComponentType)
        requires
            self.direct(e, k) is Some,
        ensures
            self.lookup(e, k) == self.direct(e, k),
    {
    }

    /// Typed lookup: `entity`'s component of type `T`, through prototypes.
    pub fn get<T: Component + Copy>(&self, entity: Entity) -> (r: Option<T>)
        requires
            self.wf(),
        ensures
            match r {
                Some(v) => self.lookup(entity, T::kind()) == Some(v.to_any()),
                None => self.lookup(entity, T::kind()) is None,
            },
    {
        let t = T::get_component_type();
        match self.get_component(entity, t) {
            Some(c) => {
                proof {
                    self.lemma_lookup_kind(entity, t, MAX_PROTOTYPE_DEPTH as nat);
                }
                match T::downcast_ref(c) {
                    Some(v) => Some(*v),
                    None => None,
                }
            },
            None => None,
        }
    }

    /// Inserts or overwrites the component of `component`'s kind on `entity`.
    pub fn add_boxed_component(&mut self, entity: Entity, component: AnyComponent)
        requires
            old(self).wf(),
        ensures
            old(self).added(final(self), entity, component),
    {
        let ghost k = component.kind();
        let idx = component.get_type().index();
        proof {
            lemma_table_index(k);
        }
        let _ = self.component_data_tables[idx].insert(entity, component);
        proof {
            assert forall|k2: ComponentType| #[trigger] self.table(k2) == if k2 == k {
                old(self).table(k2).insert(entity, component)
            } else {
                old(self).table(k2)
            } by {
                crate::components::lemma_table_index_injective(k, k2);
            }
            assert forall|i: int, e: Entity|
                0 <= i < NUM_COMPONENT_TYPES && #[trigger] self.component_data_tables@[i]@.contains_key(e)
                    implies self.component_data_tables@[i]@[e].kind() == kind_at(i) by {
                if i != idx as int {
                    assert(self.component_data_tables@[i] == old(self).component_data_tables@[i]);
                }
            }
        }
    }

    /// Inserts or overwrites `entity`'s component of kind `T`.
    pub fn add_component<T: Component>(&mut self, entity: Entity, component: T)
        requires
            old(self).wf(),
        ensures
            old(self).added(final(self), entity, component.to_any()),
    {
        let c = component.into_any();
        self.add_boxed_component(entity, c);
    }

    /// Makes `child` fall back to `prototype` for the components it lacks.
    pub fn extend(&mut self, prototype: Entity, child: Entity)
        requires
            old(self).wf(),
        ensures
            old(self).added(final(self), child, AnyComponent::Prototype(Prototype { prototype })),
            final(self).prototype_of(child) == Some(prototype),
    {
        self.add_component(child, Prototype { prototype });
    }

    /// The prototype that `entity` names directly.
    fn get_prototype(&self, entity: Entity) -> (r: Option<Entity>)
        requires
            self.wf(),
        ensures
            r == self.prototype_of(entity),
    {
        match self.component_data_tables[ComponentType::Prototype.index()].get(entity) {
            Some(AnyComponent::Prototype(p)) => Some(p.prototype),
            _ => None,
        }
    }

    /// The component of kind `component_type` on `entity`, or else on its
    /// prototype chain (followed for at most `MAX_PROTOTYPE_DEPTH` steps).
    pub fn get_component(&self, entity: Entity, component_type: ComponentType) -> (r: Option<&AnyComponent>)
        requires
            self.wf(),
        ensures
            match r {
                Some(c) => self.lookup(entity, component_type) == Some(*c),
                None => self.lookup(entity, component_type) is None,
            },
    {
        let idx = component_type.index();
        let mut current = entity;
        let mut fuel: u32 = MAX_PROTOTYPE_DEPTH;
        loop
            invariant
                self.wf(),
                idx as int == component_type.table_index(),
                fuel <= MAX_PROTOTYPE_DEPTH,
                self.resolve(current, component_type, fuel as nat) == self.lookup(entity, component_type),
            decreases fuel,
        {
            match self.component_data_tables[idx].get(current) {
                Some(c) => {
                    return Some(c);
                },
                None => {},
            }
            if fuel == 0 {
                return None;
            }
            match self.get_prototype(current) {
                Some(p) => {
                    current = p;
                    fuel = fuel - 1;
                },
                None => {
                    return None;
                },
            }
        }
    }

    /// Mutable access to the component of kind `component_type` that
    /// `get_component` finds: `entity`'s own, or else one on its prototype
    /// chain (the reference then points at that prototype's component). The
    /// store stays well formed as long as what is written back is of that
    /// same kind.
    pub fn get_component_mut(&mut self, entity: Entity, component_type: ComponentType) -> (r: Option<&mut AnyComponent>)
        requires
            old(self).wf(),
        ensures
            match r {
                Some(c) => {
                    &&& old(self).lookup(entity, component_type) == Some(*c)
                    &&& old(self).lookup_owner(entity, component_type) is Some
                    &&& final(self).same_entities(old(self))
                    &&& forall|k: ComponentType|
                        #[trigger] final(self).table(k) == if k == component_type {
                            old(self).table(k).insert(old(self).lookup_owner(entity, component_type)->Some_0, *final(c))
                        } else {
                            old(self).table(k)
                        }
                    &&& final(c).kind() == component_type ==> final(self).wf()
                },
                None => {
                    &&& old(self).lookup(entity, component_type) is None
                    &&& final(self).wf()
                    &&& final(self).same_entities(old(self))
                    &&& forall|k: ComponentType| #[trigger] final(self).table(k) == old(self).table(k)
                },
            },
    {
        let idx = component_type.index();
        proof {
            lemma_table_index(component_type);
            assert forall|k2: ComponentType| k2 != component_type implies k2.table_index() != idx by {
                crate::components::lemma_table_index_injective(component_type, k2);
            }
            self.lemma_resolve_owner(entity, component_type, MAX_PROTOTYPE_DEPTH as nat);
        }
        let mut current = entity;
        let mut fuel: u32 = MAX_PROTOTYPE_DEPTH;
        loop
            invariant
                self.wf(),
                *self == *old(self),
                idx as int == component_type.table_index(),
                fuel <= MAX_PROTOTYPE_DEPTH,
                self.resolve_owner(current, component_type, fuel as nat) == self.lookup_owner(entity, component_type),
            ensures
                self.wf(),
                *self == *old(self),
                self.lookup_owner(entity, component_type) == Some(current),
            decreases fuel,
        {
            if self.component_data_tables[idx].contains_key(current) {
                break;
            }
            if fuel == 0 {
                proof {
                    assert(self.resolve_owner(current, component_type, 0) is None);
                    self.lemma_resolve_owner(entity, component_type, MAX_PROTOTYPE_DEPTH as nat);
                }
                return None;
            }
            match self.get_prototype(current) {
                Some(p) => {
                    current = p;
                    fuel = fuel - 1;
                },
                None => {
                    proof {
                        assert(self.resolve_owner(current, component_type, fuel as nat) is None);
                        self.lemma_resolve_owner(entity, component_type, MAX_PROTOTYPE_DEPTH as nat);
                    }
                    return None;
                },
            }
        }
        self.component_data_tables[idx].get_mut(current)
    }

    /// Removes and returns `entity`'s own component of kind `component_type`.
    pub fn remove_component(&mut self, entity: Entity, component_type: ComponentType) -> (r: Option<AnyComponent>)
        requires
            old(self).wf(),
        ensures
            old(self).removed(final(self), entity, component_type),
            r == old(self).direct(entity, component_type),
    {
        let idx = component_type.index();
        proof {
            lemma_table_index(component_type);
        }
        let r = self.component_data_tables[idx].remove(entity);
        proof {
            assert forall|k2: ComponentType| #[trigger] self.table(k2) == if k2 == component_type {
                old(self).table(k2).remove(entity)
            } else {
                old(self).table(k2)
            } by {
                crate::components::lemma_table_index_injective(component_type, k2);
            }
            assert forall|i: int, e: Entity|
                0 <= i < NUM_COMPONENT_TYPES && #[trigger] self.component_data_tables@[i]@.contains_key(e)
                    implies self.component_data_tables@[i]@[e].kind() == kind_at(i) by {
                if i != idx as int {
                    assert(self.component_data_tables@[i] == old(self).component_data_tables@[i]);
                } else {
                    assert(old(self).component_data_tables@[i]@.contains_key(e));
                }
            }
        }
        r
    }

    /// Whether `entity` itself has a component of kind `component_type`.
    pub fn has_component(&self, entity: Entity, component_type: ComponentType) -> (r: bool)
        requires
            self.wf(),
        ensures
            r == self.table(component_type).contains_key(entity),
    {
        self.component_data_tables[component_type.index()].contains_key(entity)
    }

    /// Every entity that has a component of kind `component_type`, each once,
    /// in no particular order.
    pub fn get_entities_with_components(&self, component_type: ComponentType) -> (r: Vec<Entity>)
        requires
            self.wf(),
        ensures
            r@ == self.bearers(component_type),
            self.lists_bearers(component_type, r@),
    {
        self.component_data_tables[component_type.index()].keys()
    }

    /// Every component of kind `component_type`, one per bearer, in the
    /// order `get_entities_with_components` lists the bearers.
    pub fn get_all_components_of_type(&self, component_type: ComponentType) -> (r: Vec<&AnyComponent>)
        requires
            self.wf(),
        ensures
            r@.len() == self.bearers(component_type).len(),
            forall|i: int|
                0 <= i < r@.len() ==> *#[trigger] r@[i] == self.table(component_type)[self.bearers(component_type)[i]],
    {
        proof {
            lemma_table_index(component_type);
        }
        self.component_data_tables[component_type.index()].values()
    }

    /// Gives `entity` the name `name`, replacing any earlier name.
    pub fn set_entity_name(&mut self, entity: Entity, name: &str)
        requires
            old(self).wf(),
        ensures
            final(self).wf(),
            final(self).live() == old(self).live(),
            final(self).next_id() == old(self).next_id(),
            final(self).names().dom() == old(self).names().dom().insert(entity),
            final(self).names()[entity]@ == name@,
            forall|e: Entity| e != entity ==> #[trigger] final(self).names().get(e) == old(self).names().get(e),
            forall|k: ComponentType| #[trigger] final(self).table(k) == old(self).table(k),
    {
        let _ = self.entity_names.insert(entity, name.to_owned());
    }

    /// An entity bearing the name `name`, with that name.
    pub fn get_entity_by_name(&self, name: &str) -> (r: Option<(Entity, String)>)
        requires
            self.wf(),
        ensures
            match r {
                Some((e, n)) => self.names().contains_key(e) && self.names()[e]@ == name@ && n@ == name@,
                None => forall|e: Entity| #[trigger] self.names().contains_key(e) ==> self.names()[e]@ != name@,
            },
    {
        let wanted = name.to_owned();
        self.entity_names.find_by_value(&wanted)
    }

    /// Every component attached to `entity` itself, in kind order.
    pub fn get_entity_all_components(&self, entity: Entity) -> (r: Vec<&AnyComponent>)
        requires
            self.wf(),
        ensures
            forall|i: int| 0 <= i < r@.len() ==> self.direct(entity, (#[trigger] r@[i]).kind()) == Some(*r@[i]),
            forall|a: int, b: int| 0 <= a < b < r@.len() ==> (#[trigger] r@[a]).kind() != (#[trigger] r@[b]).kind(),
            forall|k: ComponentType|
                #[trigger] self.table(k).contains_key(entity) ==> exists|i: int|
                    0 <= i < r@.len() && *r@[i] == self.table(k)[entity],
    {
        let mut out: Vec<&AnyComponent> = Vec::new();
        let mut i: usize = 0;
        while i < NUM_COMPONENT_TYPES
            invariant
                self.wf(),
                i <= NUM_COMPONENT_TYPES,
                forall|j: int| 0 <= j < out@.len() ==> self.direct(entity, (#[trigger] out@[j]).kind()) == Some(*out@[j]),
                forall|j: int| 0 <= j < out@.len() ==> (#[trigger] out@[j]).kind().table_index() < i,
                forall|a: int, b: int|
                    0 <= a < b < out@.len() ==> (#[trigger] out@[a]).kind().table_index() < (#[trigger] out@[b]).kind().table_index(),
                forall|k: ComponentType|
                    #[trigger] self.table(k).contains_key(entity) && k.table_index() < i ==> exists|j: int|
                        0 <= j < out@.len() && *out@[j] == self.table(k)[entity],
            decreases NUM_COMPONENT_TYPES - i,
        {
            let found = self.component_data_tables[i].get(entity);
            match found {
                Some(c) => {
                    proof {
                        lemma_kind_at(i as int);
                        lemma_table_index(kind_at(i as int));
                    }
                    let ghost prev = out@;
                    out.push(c);
                    proof {
                        assert forall|k: ComponentType|
                            #[trigger] self.table(k).contains_key(entity) && k.table_index() < i + 1 implies exists|j: int|
                                0 <= j < out@.len() && *out@[j] == self.table(k)[entity] by {
                            lemma_table_index(k);
                            if k.table_index() == i {
                                crate::components::lemma_table_index_injective(k, kind_at(i as int));
                                assert(*out@[out@.len() - 1] == self.table(k)[entity]);
                            } else {
                                let j = choose|j: int| 0 <= j < prev.len() && *prev[j] == self.table(k)[entity];
                                assert(out@[j] == prev[j]);
                            }
                        }
                    }
                },
                None => {
                    proof {
                        assert forall|k: ComponentType|
                            #[trigger] self.table(k).contains_key(entity) && k.table_index() < i + 1 implies exists|j: int|
                                0 <= j < out@.len() && *out@[j] == self.table(k)[entity] by {
                            lemma_table_index(k);
                        }
                    }
                },
            }
            i = i + 1;
        }
        proof {
            assert forall|a: int, b: int| 0 <= a < b < out@.len() implies (#[trigger] out@[a]).kind() != (#[trigger] out@[b]).kind() by {
                assert(out@[a].kind().table_index() < out@[b].kind().table_index());
            }
            assert forall|k: ComponentType|
                #[trigger] self.table(k).contains_key(entity) implies exists|j: int|
                    0 <= j < out@.len() && *out@[j] == self.table(k)[entity] by {
                lemma_table_index(k);
            }
        }
        out
    }

    /// Registers a listener for the store's messages.
    pub fn subscribe(&mut self, listener: std::sync::mpsc::Sender<String>)
        requires
            old(self).wf(),
        ensures
            final(self).wf(),
            final(self).live() == old(self).live(),
            final(self).next_id() == old(self).next_id(),
            final(self).names() == old(self).names(),
            final(self).listener_count() == old(self).listener_count() + 1,
            forall|k: ComponentType| #[trigger] final(self).table(k) == old(self).table(k),
    {
        self.listeners.push(listener);
    }

    /// Removes `entity` from every component table and from the live list.
    /// Killing an entity that is already dead changes nothing more.
    pub fn kill_entity(&mut self, entity: Entity)
        requires
            old(self).wf(),
        ensures
            old(self).killed(final(self), entity),
    {
        let mut i: usize = 0;
        while i < NUM_COMPONENT_TYPES
            invariant
                self.wf(),
                self.same_entities(old(self)),
                self.entities == old(self).entities,
                i <= NUM_COMPONENT_TYPES,
                forall|j: int|
                    0 <= j < NUM_COMPONENT_TYPES ==> #[trigger] self.component_data_tables@[j]@ == if j < i {
                        old(self).component_data_tables@[j]@.remove(entity)
                    } else {
                        old(self).component_data_tables@[j]@
                    },
            decreases NUM_COMPONENT_TYPES - i,
        {
            let _ = self.component_data_tables[i].remove(entity);
            proof {
                assert forall|j: int, e: Entity|
                    0 <= j < NUM_COMPONENT_TYPES && #[trigger] self.component_data_tables@[j]@.contains_key(e)
                        implies self.component_data_tables@[j]@[e].kind() == kind_at(j) by {
                    assert(old(self).component_data_tables@[j]@.contains_key(e));
                }
            }
            i = i + 1;
        }
        let mut j: usize = 0;
        while j < self.entities.len()
            invariant
                self.wf(),
                j <= self.entities@.len(),
                self.entities == old(self).entities,
                forall|m: int| 0 <= m < j ==> #[trigger] self.entities@[m] != entity,
            ensures
                j <= self.entities@.len(),
                self.entities == old(self).entities,
                forall|m: int| 0 <= m < j ==> #[trigger] self.entities@[m] != entity,
                j < self.entities@.len() ==> self.entities@[j as int] == entity,
            decreases self.entities@.len() - j,
        {
            if self.entities[j] == entity {
                break;
            }
            j = j + 1;
        }
        if j < self.entities.len() {
            self.entities.remove(j);
            proof {
                let s0 = old(self).entities@;
                assert(self.entities@ == s0.remove(j as int));
                assert(self.entities@.to_set() =~= s0.to_set().remove(entity)) by {
                    assert forall|x: Entity| s0.to_set().remove(entity).contains(x) implies
                        self.entities@.to_set().contains(x) by {
                        let m = choose|m: int| 0 <= m < s0.len() && s0[m] == x;
                        assert(m != j);
                        let m2 = if m < j { m } else { m - 1 };
                        assert(self.entities@[m2] == x);
                    }
                    assert forall|x: Entity| self.entities@.to_set().contains(x) implies
                        s0.to_set().remove(entity).contains(x) by {
                        let m = choose|m: int| 0 <= m < self.entities@.len() && self.entities@[m] == x;
                        let m0 = if m < j { m } else { m + 1 };
                        assert(s0[m0] == x);
                        assert(m0 != j);
                        assert(s0[m0] != s0[j as int]);
                    }
                }
                assert forall|m: int| 0 <= m < self.entities@.len() implies #[trigger] self.entities@[m].id
                    < self.next_id by {
                    let m0 = if m < j { m } else { m + 1 };
                    assert(s0[m0] == self.entities@[m]);
                }
            }
        } else {
            proof {
                assert(!old(self).entities@.contains(entity));
                assert(old(self).entities@.to_set().remove(entity) =~= old(self).entities@.to_set());
            }
        }
        proof {
            assert forall|k: ComponentType| #[trigger] self.table(k) == old(self).table(k).remove(entity) by {
                lemma_table_index(k);
            }
        }
    }
}

/// A lookup reads only the table of its kind and the prototype table.
pub proof fn lemma_resolve_frame(a: &EntityManager, b: &EntityManager, e: Entity, k: ComponentType, fuel: nat)
    requires
        a.table(k) == b.table(k),
        a.table(ComponentType::Prototype) == b.table(ComponentType::Prototype),
    ensures
        a.resolve(e, k, fuel) == b.resolve(e, k, fuel),
    decreases fuel,
{
    if fuel > 0 {
        if let Some(p) = a.prototype_of(e) {
            lemma_resolve_frame(a, b, p, k, (fuel - 1) as nat);
        }
    }
}

/// `x` is `e` or on `e`'s prototype chain within `fuel` links.
pub open spec fn on_chain(em: &EntityManager, e: Entity, x: Entity, fuel: nat) -> bool
    decreases fuel,
{
    x == e || (fuel > 0 && match em.prototype_of(e) {
        Some(p) => on_chain(em, p, x, (fuel - 1) as nat),
        None => false,
    })
}

/// If no entity that a lookup of `e` may visit has a component of kind `k`,
/// the lookup misses.
pub proof fn lemma_absent_along_chain(em: &EntityManager, e: Entity, k: ComponentType, fuel: nat)
    requires
        forall|x: Entity| on_chain(em, e, x, fuel) ==> !(#[trigger] em.table(k).contains_key(x)),
    ensures
        em.resolve(e, k, fuel) is None,
    decreases fuel,
{
    assert(on_chain(em, e, e, fuel));
    if fuel > 0 {
        if let Some(p) = em.prototype_of(e) {
            assert forall|x: Entity| on_chain(em, p, x, (fuel - 1) as nat) implies !(#[trigger] em.table(k).contains_key(x)) by {
                assert(on_chain(em, e, x, fuel));
            }
            lemma_absent_along_chain(em, p, k, (fuel - 1) as nat);
        }
    }
}

/// An entity that was never given a component of kind `k`, nor was any
/// entity on its prototype chain, has no component of kind `k`.
pub proof fn lemma_absent_without_add_on_chain(em: &EntityManager, e: Entity, k: ComponentType)
    requires
        forall|x: Entity| on_chain(em, e, x, MAX_PROTOTYPE_DEPTH as nat) ==> !(#[trigger] em.table(k).contains_key(x)),
    ensures
        em.lookup(e, k) is None,
{
    lemma_absent_along_chain(em, e, k, MAX_PROTOTYPE_DEPTH as nat);
}

/// `post` follows `pre` by one store operation other than giving `e` a
/// component: adding to another entity, removing, killing, or an
/// operation that leaves every table as it was (creating an entity,
/// naming, subscribing, reading).
pub open spec fn step_without_adding_to(pre: &EntityManager, post: &EntityManager, e: Entity) -> bool {
    ||| exists|x: Entity, c: AnyComponent| x != e && #[trigger] pre.added(post, x, c)
    ||| exists|k: ComponentType, x: Entity| #[trigger] pre.removed(post, x, k)
    ||| exists|x: Entity| #[trigger] pre.killed(post, x)
    ||| post.wf() && forall|k: ComponentType| #[trigger] post.table(k) == pre.table(k)
}

/// Once `entity` is killed, no listing of bearers of any kind contains it
/// again, through any run of later operations none of which gives it a
/// component. `stores[0]` is the store right after the kill.
pub proof fn lemma_killed_stays_unlisted(
    before: EntityManager,
    stores: Seq<EntityManager>,
    entity: Entity,
    k: ComponentType,
    listing: Seq<Entity>,
)
    requires
        before.wf(),
        stores.len() > 0,
        before.killed(&stores[0], entity),
        forall|j: int| 0 <= j < stores.len() - 1 ==> #[trigger] step_without_adding_to(&stores[j], &stores[j + 1], entity),
        stores.last().lists_bearers(k, listing),
    ensures
        !listing.contains(entity),
{
    lemma_stays_out(before, stores, entity, stores.len() - 1);
    assert(!stores.last().table(k).contains_key(entity));
}

proof fn lemma_stays_out(before: EntityManager, stores: Seq<EntityManager>, entity: Entity, t: int)
    requires
        before.wf(),
        stores.len() > 0,
        before.killed(&stores[0], entity),
        forall|j: int| 0 <= j < stores.len() - 1 ==> #[trigger] step_without_adding_to(&stores[j], &stores[j + 1], entity),
        0 <= t < stores.len(),
    ensures
        forall|k: ComponentType| !(#[trigger] stores[t].table(k).contains_key(entity)),
    decreases t,
{
    if t == 0 {
        assert forall|k: ComponentType| !(#[trigger] stores[0].table(k).contains_key(entity)) by {
            assert(stores[0].table(k) == before.table(k).remove(entity));
        }
    } else {
        lemma_stays_out(before, stores, entity, t - 1);
        let pre = stores[t - 1];
        let post = stores[t];
        assert(step_without_adding_to(&stores[t - 1], &stores[(t - 1) + 1], entity));
        assert forall|k: ComponentType| !(#[trigger] post.table(k).contains_key(entity)) by {
            assert(!pre.table(k).contains_key(entity));
            if exists|x: Entity, c: AnyComponent| x != entity && #[trigger] pre.added(&post, x, c) {
                let (x, c) = choose|x: Entity, c: AnyComponent| x != entity && #[trigger] pre.added(&post, x, c);
                assert(post.table(k) == if k == c.kind() { pre.table(k).insert(x, c) } else { pre.table(k) });
            } else if exists|k2: ComponentType, x: Entity| #[trigger] pre.removed(&post, x, k2) {
                let (k2, x) = choose|k2: ComponentType, x: Entity| #[trigger] pre.removed(&post, x, k2);
                assert(post.table(k) == if k == k2 { pre.table(k).remove(x) } else { pre.table(k) });
            } else if exists|x: Entity| #[trigger] pre.killed(&post, x) {
                let x = choose|x: Entity| #[trigger] pre.killed(&post, x);
                assert(post.table(k) == pre.table(k).remove(x));
            } else {
                assert(post.table(k) == pre.table(k));
            }
        }
    }
}

/// Entity ids returned by a sequence of `create_entity` calls are pairwise
/// distinct. `stores[i]` is the store before the `i`-th call, `ids[i]` what it
/// returned; between calls any operation may run that does not shrink the set
/// of issued ids (no operation of the store does).
pub proof fn lemma_created_ids_distinct(stores: Seq<EntityManager>, ids: Seq<Entity>)
    requires
        stores.len() == ids.len() + 1,
        forall|i: int|
            0 <= i < ids.len() ==> !(#[trigger] stores[i]).issued().contains(ids[i])
                && stores[i].issued().insert(ids[i]).subset_of(stores[i + 1].issued()),
    ensures
        forall|i: int, j: int| 0 <= i < j < ids.len() ==> ids[i] != ids[j],
{
    assert forall|i: int, j: int| 0 <= i < j < ids.len() implies ids[i] != ids[j] by {
        lemma_issued_grows(stores, ids, i + 1, j);
        assert(stores[i].issued().insert(ids[i]).contains(ids[i]));
    }
}

proof fn lemma_issued_grows(stores: Seq<EntityManager>, ids: Seq<Entity>, a: int, b: int)
    requires
        stores.len() == ids.len() + 1,
        forall|i: int|
            0 <= i < ids.len() ==> !(#[trigger] stores[i]).issued().contains(ids[i])
                && stores[i].issued().insert(ids[i]).subset_of(stores[i + 1].issued()),
        0 <= a <= b <= ids.len(),
    ensures
        stores[a].issued().subset_of(stores[b].issued()),
    decreases b - a,
{
    if a < b {
        lemma_issued_grows(stores, ids, a + 1, b);
        assert(stores[a].issued().subset_of(stores[a].issued().insert(ids[a])));
    }
}

/// After `add_component(entity, v)`, looking up `v`'s kind on `entity` gives `v`.
pub proof fn lemma_add_then_get<T: Component>(pre: EntityManager, post: EntityManager, entity: Entity, v: T)
    requires
        pre.wf(),
        pre.added(&post, entity, v.to_any()),
    ensures
        post.lookup(entity, T::kind()) == Some(v.to_any()),
        post.direct(entity, T::kind()) == Some(v.to_any()),
{
    T::lemma_to_any(v, v);
    assert(post.table(T::kind()) == pre.table(T::kind()).insert(entity, v.to_any()));
}

/// An entity that was never given a component of kind `k`, and that names
/// no prototype, has no component of kind `k`.
pub proof fn lemma_absent_without_add(em: EntityManager, entity: Entity, k: ComponentType)
    requires
        em.wf(),
        !em.table(k).contains_key(entity),
        em.prototype_of(entity) is None,
    ensures
        em.lookup(entity, k) is None,
{
}

/// In a fresh store every lookup misses.
pub proof fn lemma_fresh_store_is_empty(em: EntityManager, entity: Entity, k: ComponentType)
    requires
        em.wf(),
        forall|k2: ComponentType| #[trigger] em.table(k2) == Map::<Entity, AnyComponent>::empty(),
    ensures
        em.lookup(entity, k) is None,
{
    assert(em.table(k) == Map::<Entity, AnyComponent>::empty());
    assert(em.table(ComponentType::Prototype) == Map::<Entity, AnyComponent>::empty());
}

/// `remove_component` right after `add_component(entity, v)` returns `v`;
/// afterwards `entity` itself has no component of that kind, and a lookup
/// misses unless a prototype supplies one.
pub proof fn lemma_add_then_remove<T: Component>(
    s0: EntityManager,
    s1: EntityManager,
    s2: EntityManager,
    entity: Entity,
    v: T,
    removed: Option<AnyComponent>,
)
    requires
        s0.wf(),
        s0.added(&s1, entity, v.to_any()),
        s1.removed(&s2, entity, T::kind()),
        removed == s1.direct(entity, T::kind()),
    ensures
        removed == Some(v.to_any()),
        s2.direct(entity, T::kind()) is None,
        s2.prototype_of(entity) is None ==> s2.lookup(entity, T::kind()) is None,
{
    T::lemma_to_any(v, v);
    assert(s1.table(T::kind()) == s0.table(T::kind()).insert(entity, v.to_any()));
    assert(s2.table(T::kind()) == s1.table(T::kind()).remove(entity));
}

/// Once `entity` is killed, no listing of bearers of any kind contains it.
pub proof fn lemma_killed_not_listed(
    pre: EntityManager,
    post: EntityManager,
    entity: Entity,
    k: ComponentType,
    listing: Seq<Entity>,
)
    requires
        pre.wf(),
        pre.killed(&post, entity),
        post.lists_bearers(k, listing),
    ensures
        !listing.contains(entity),
{
    assert(post.table(k) == pre.table(k).remove(entity));
}

} // verus!
