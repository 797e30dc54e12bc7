//! The registry of named declarations.
//!
//! A `TypeContext` maps identifiers to declarations. A declaration is built
//! while its identifier is *reserved*: a nested request for the same
//! identifier then finds it known and does nothing, which is what terminates
//! the expansion of self-referential and mutually referential types. A
//! reserved identifier is not yet a key of the table: no partially built
//! declaration can be observed.

use crate::reflection::{resolved_in, Type, TypeDecl, TypeDeclView, TypeView};
use crate::text::str_eq;
use vstd::prelude::*;

verus! {

/// The registry: a table from identifier to declaration, and the set of
/// identifiers whose declarations are being built.
#[derive(Debug)]
pub struct TypeContext {
    types: Vec<(String, TypeDecl)>,
    pending: Vec<String>,
}

/// The identifiers of `entries`, in order.
pub open spec fn entry_ids(entries: Seq<(String, TypeDecl)>) -> Seq<Seq<char>> {
    Seq::new(entries.len(), |i: int| entries[i].0@)
}

/// The strings of `names` as character sequences, in order.
pub open spec fn names_view(names: Seq<String>) -> Seq<Seq<char>> {
    Seq::new(names.len(), |i: int| names[i]@)
}

/// The table that `entries` stands for, where no identifier occurs twice.
pub open spec fn entries_map(entries: Seq<(String, TypeDecl)>) -> Map<Seq<char>, TypeDeclView> {
    Map::new(
        |id: Seq<char>| entry_ids(entries).contains(id),
        |id: Seq<char>| entries[entry_ids(entries).index_of(id)].1@,
    )
}

/// In a list without repeated identifiers, the table holds at each
/// identifier the declaration listed with it.
pub proof fn lemma_entries_map(entries: Seq<(String, TypeDecl)>, i: int)
    requires
        entry_ids(entries).no_duplicates(),
        0 <= i < entries.len(),
    ensures
        entries_map(entries).contains_key(entries[i].0@),
        entries_map(entries)[entries[i].0@] == entries[i].1@,
{
    let ids = entry_ids(entries);
    assert(ids[i] == entries[i].0@);
    let j = ids.index_of(entries[i].0@);
    assert(0 <= j < ids.len() && ids[j] == ids[i]);
}

/// A name that a list without repeats does not hold can be added at its
/// end: the list stays without repeats, and holds that name besides.
proof fn lemma_push_fresh(names: Seq<Seq<char>>, name: Seq<char>)
    requires
        names.no_duplicates(),
        !names.contains(name),
    ensures
        names.push(name).no_duplicates(),
        names.push(name).to_set() == names.to_set().insert(name),
{
    let longer = names.push(name);
    assert forall|i: int, j: int|
        0 <= i < longer.len() && 0 <= j < longer.len() && i != j implies longer[i]
        != longer[j] by {
        if i < names.len() {
            assert(names.contains(longer[i]));
        }
        if j < names.len() {
            assert(names.contains(longer[j]));
        }
    }
    assert forall|k: Seq<char>| longer.contains(k) <==> names.contains(k) || k == name by {
        if longer.contains(k) {
            let i = longer.index_of(k);
            if i < names.len() {
                assert(names[i] == k);
            }
        }
        if names.contains(k) {
            assert(longer[names.index_of(k)] == k);
        }
        if k == name {
            assert(longer[names.len() as int] == k);
        }
    }
    assert(longer.to_set() =~= names.to_set().insert(name));
}

/// A name can be taken out of a list without repeats: the list stays
/// without repeats, and holds that name no more.
proof fn lemma_remove_name(names: Seq<Seq<char>>, at: int)
    requires
        names.no_duplicates(),
        0 <= at < names.len(),
    ensures
        names.remove(at).no_duplicates(),
        names.remove(at).to_set() == names.to_set().remove(names[at]),
{
    let rest = names.remove(at);
    assert forall|i: int| 0 <= i < rest.len() implies rest[i] == names[if i < at {
        i
    } else {
        i + 1
    }] by {}
    assert forall|k: Seq<char>| rest.contains(k) <==> names.contains(k) && k != names[at] by {
        if rest.contains(k) {
            let i = rest.index_of(k);
            assert(names[if i < at {
                i
            } else {
                i + 1
            }] == k);
        }
        if names.contains(k) && k != names[at] {
            let i = names.index_of(k);
            assert(rest[if i < at {
                i
            } else {
                i - 1
            }] == k);
        }
    }
    assert(rest.to_set() =~= names.to_set().remove(names[at]));
}

/// An entry under an identifier that a list does not hold can be added at
/// its end: the table then holds that entry besides.
proof fn lemma_entries_push(entries: Seq<(String, TypeDecl)>, id: String, decl: TypeDecl)
    requires
        entry_ids(entries).no_duplicates(),
        !entry_ids(entries).contains(id@),
    ensures
        entry_ids(entries.push((id, decl))) == entry_ids(entries).push(id@),
        entry_ids(entries.push((id, decl))).no_duplicates(),
        entry_ids(entries.push((id, decl))).to_set() == entry_ids(entries).to_set().insert(id@),
        entries_map(entries.push((id, decl))) == entries_map(entries).insert(id@, decl@),
{
    let longer = entries.push((id, decl));
    assert(entry_ids(longer) =~= entry_ids(entries).push(id@));
    lemma_push_fresh(entry_ids(entries), id@);
    assert forall|k: Seq<char>| entries_map(longer).contains_key(k) implies entries_map(
        longer,
    )[k] == entries_map(entries).insert(id@, decl@)[k] by {
        let i = entry_ids(longer).index_of(k);
        lemma_entries_map(longer, i);
        if i < entries.len() {
            assert(longer[i] == entries[i]);
            lemma_entries_map(entries, i);
        }
    }
    assert(entries_map(longer) =~= entries_map(entries).insert(id@, decl@));
}

impl View for TypeContext {
    type V = Map<Seq<char>, TypeDeclView>;

    /// The table of finished declarations.
    closed spec fn view(&self) -> Map<Seq<char>, TypeDeclView> {
        entries_map(self.types@)
    }
}

/// Whether `now` is `before` with `id` reserved besides: what a builder
/// for `id` finds.
pub open spec fn opened(now: TypeContext, before: TypeContext, id: Seq<char>) -> bool {
    &&& now@ == before@
    &&& now.order() == before.order()
    &&& now.reserved() == before.reserved().insert(id)
}

impl TypeContext {
    /// The identifiers whose declarations are being built.
    pub closed spec fn reserved(&self) -> Set<Seq<char>> {
        names_view(self.pending@).to_set()
    }

    /// The identifiers of the finished declarations, in the order in which
    /// they were filed.
    pub closed spec fn order(&self) -> Seq<Seq<char>> {
        entry_ids(self.types@)
    }

    /// The identifiers that a request finds present: the keys of the table
    /// and the reserved ones.
    pub open spec fn known(&self) -> Set<Seq<char>> {
        self@.dom().union(self.reserved())
    }

    /// Whether this registry holds all that `before` held, unchanged and
    /// in the same places, and has the same identifiers reserved.
    pub open spec fn extends(&self, before: &TypeContext) -> bool {
        &&& before@.submap_of(self@)
        &&& before.order().is_prefix_of(self.order())
        &&& self.reserved() == before.reserved()
    }

    /// Extension composes: what extends an extension of a registry extends
    /// that registry.
    pub proof fn lemma_extends_transitive(&self, middle: &TypeContext, first: &TypeContext)
        requires
            self.extends(middle),
            middle.extends(first),
        ensures
            self.extends(first),
    {
        assert forall|id: Seq<char>| #[trigger] first@.dom().contains(id) implies self@.dom().contains(
            id,
        ) && first@[id] == self@[id] by {
            assert(middle@.dom().contains(id));
            assert(first@[id] == middle@[id]);
            assert(self@.dom().contains(id));
        }
    }

    /// An extension knows every identifier that the registry before it knew.
    pub proof fn lemma_extends_known(&self, before: &TypeContext)
        requires
            self.extends(before),
        ensures
            before.known().subset_of(self.known()),
    {
        assert forall|id: Seq<char>| before.known().contains(id) implies self.known().contains(
            id,
        ) by {
            if before@.dom().contains(id) {
                assert(self@.dom().contains(id));
            }
        }
    }

    /// No identifier is listed twice, and none is both finished and reserved.
    #[verifier::type_invariant]
    pub closed spec fn well_formed(&self) -> bool {
        &&& entry_ids(self.types@).no_duplicates()
        &&& names_view(self.pending@).no_duplicates()
        &&& entry_ids(self.types@).to_set().disjoint(names_view(self.pending@).to_set())
    }

    /// What well-formedness means for the table and the reserved set.
    pub proof fn lemma_well_formed(&self)
        requires
            self.well_formed(),
        ensures
            self@.dom().finite(),
            self.reserved().finite(),
            self@.dom().disjoint(self.reserved()),
            self.order().no_duplicates(),
            self.order().to_set() == self@.dom(),
    {
        assert(self@.dom() =~= entry_ids(self.types@).to_set());
        vstd::seq_lib::seq_to_set_is_finite(entry_ids(self.types@));
        vstd::seq_lib::seq_to_set_is_finite(names_view(self.pending@));
    }

    /// An empty registry.
    pub fn new() -> (cx: TypeContext)
        ensures
            cx@ == Map::<Seq<char>, TypeDeclView>::empty(),
            cx.order() == Seq::<Seq<char>>::empty(),
            cx.reserved() == Set::<Seq<char>>::empty(),
    {
        let cx = TypeContext { types: Vec::new(), pending: Vec::new() };
        assert(cx@ =~= Map::<Seq<char>, TypeDeclView>::empty());
        assert(cx.order() =~= Seq::<Seq<char>>::empty());
        assert(cx.reserved() =~= Set::<Seq<char>>::empty());
        cx
    }

    /// Whether a finished declaration is held under `id`.
    pub fn contains(&self, id: &str) -> (found: bool)
        ensures
            found == self@.contains_key(id@),
    {
        self.position(id).is_some()
    }

    /// The declaration held under `id`, if it is finished.
    pub fn get(&self, id: &str) -> (found: Option<&TypeDecl>)
        ensures
            found is Some <==> self@.contains_key(id@),
            found is Some ==> found->0@ == self@[id@],
    {
        match self.position(id) {
            Some(i) => Some(&self.types[i].1),
            None => None,
        }
    }

    /// Whether a request for `id` finds it present: finished or reserved.
    pub fn is_known(&self, id: &str) -> (found: bool)
        ensures
            found == self.known().contains(id@),
    {
        self.position(id).is_some() || self.pending_position(id).is_some()
    }

    /// The number of finished declarations.
    pub fn len(&self) -> (n: usize)
        ensures
            n == self@.len(),
    {
        proof {
            use_type_invariant(self);
            let ids = entry_ids(self.types@);
            assert(self@.dom() =~= ids.to_set());
            ids.unique_seq_to_set();
        }
        self.types.len()
    }

    /// Where `id` stands among the finished declarations.
    fn position(&self, id: &str) -> (found: Option<usize>)
        ensures
            found is Some <==> self@.contains_key(id@),
            found is Some ==> found->0 < self.types@.len() && self.types@[found->0 as int].0@
                == id@ && self.types@[found->0 as int].1@ == self@[id@],
    {
        proof {
            use_type_invariant(self);
        }
        let mut i: usize = 0;
        while i < self.types.len()
            invariant
                self.well_formed(),
                i <= self.types.len(),
                forall|j: int| 0 <= j < i ==> self.types@[j].0@ != id@,
            decreases self.types.len() - i,
        {
            if str_eq(self.types[i].0.as_str(), id) {
                proof {
                    lemma_entries_map(self.types@, i as int);
                }
                return Some(i);
            }
            i += 1;
        }
        assert(!entry_ids(self.types@).contains(id@));
        None
    }

    /// Where `id` stands among the reserved identifiers.
    fn pending_position(&self, id: &str) -> (found: Option<usize>)
        ensures
            found is Some <==> self.reserved().contains(id@),
            found is Some ==> found->0 < self.pending@.len() && self.pending@[found->0 as int]@
                == id@,
    {
        let mut i: usize = 0;
        while i < self.pending.len()
            invariant
                i <= self.pending.len(),
                forall|j: int| 0 <= j < i ==> self.pending@[j]@ != id@,
            decreases self.pending.len() - i,
        {
            if str_eq(self.pending[i].as_str(), id) {
                assert(names_view(self.pending@)[i as int] == id@);
                return Some(i);
            }
            i += 1;
        }
        assert(!names_view(self.pending@).contains(id@));
        None
    }

    /// Marks `id` as being built. From here until `declare`, a request for
    /// `id` finds it known.
    pub(crate) fn reserve(&mut self, id: String)
        requires
            !old(self).known().contains(id@),
        ensures
            final(self)@ == old(self)@,
            final(self).order() == old(self).order(),
            final(self).reserved() == old(self).reserved().insert(id@),
    {
        let ghost names = names_view(self.pending@);
        proof {
            use_type_invariant(&*self);
            assert(self@.dom() =~= entry_ids(self.types@).to_set());
            lemma_push_fresh(names, id@);
        }
        let mut pending: Vec<String> = Vec::new();
        core::mem::swap(&mut self.pending, &mut pending);
        pending.push(id);
        assert(names_view(pending@) =~= names.push(id@));
        core::mem::swap(&mut self.pending, &mut pending);
    }

    /// Files `decl` under the reserved identifier `id`, which ends its
    /// reservation.
    pub(crate) fn declare(&mut self, id: String, decl: TypeDecl)
        requires
            old(self).reserved().contains(id@),
        ensures
            final(self)@ == old(self)@.insert(id@, decl@),
            final(self).order() == old(self).order().push(id@),
            final(self).reserved() == old(self).reserved().remove(id@),
    {
        let ghost names = names_view(self.pending@);
        let ghost entries = self.types@;
        let at = self.pending_position(id.as_str()).unwrap();
        proof {
            use_type_invariant(&*self);
            assert(names[at as int] == id@);
            lemma_remove_name(names, at as int);
            lemma_entries_push(entries, id, decl);
        }
        let mut pending: Vec<String> = Vec::new();
        core::mem::swap(&mut self.pending, &mut pending);
        let _ = pending.remove(at);
        assert(names_view(pending@) =~= names.remove(at as int));
        core::mem::swap(&mut self.pending, &mut pending);
        let mut types: Vec<(String, TypeDecl)> = Vec::new();
        core::mem::swap(&mut self.types, &mut types);
        types.push((id, decl));
        core::mem::swap(&mut self.types, &mut types);
    }

    /// Makes sure that a declaration for `id` exists.
    ///
    /// Where `id` is known already, finished or reserved, nothing happens
    /// and `build` is not called. Otherwise `id` is reserved, `build` is
    /// called on this registry, and what it returns is filed under `id`.
    /// `build` may register further declarations; it must leave what it
    /// found in place.
    pub fn insert_with<F: FnOnce(&mut TypeContext) -> TypeDecl>(&mut self, id: String, build: F)
        requires
            forall|c: &mut TypeContext|
                opened(*c, *old(self), id@) ==> #[trigger] call_requires(build, (c,)),
            forall|c: &mut TypeContext, d: TypeDecl|
                opened(*c, *old(self), id@) && #[trigger] call_ensures(build, (c,), d)
                    ==> final(c).extends(&*c),
        ensures
            final(self).extends(old(self)),
            old(self).known().contains(id@) ==> final(self)@ == old(self)@,
            old(self).known().contains(id@) ==> final(self).order() == old(self).order(),
            !old(self).known().contains(id@) ==> exists|c: &mut TypeContext, d: TypeDecl|
                {
                    &&& opened(*c, *old(self), id@)
                    &&& #[trigger] call_ensures(build, (c,), d)
                    &&& final(self)@ == final(c)@.insert(id@, d@)
                    &&& final(self).order() == final(c).order().push(id@)
                },
    {
        if !self.is_known(id.as_str()) {
            let key = id.clone();
            self.reserve(key);
            let decl = build(self);
            proof {
                use_type_invariant(&*self);
                self.lemma_well_formed();
            }
            let ghost built = *self;
            self.declare(id, decl);
            assert(self.reserved() =~= old(self).reserved());
            assert(old(self).order().is_prefix_of(self.order())) by {
                assert(built.order().is_prefix_of(self.order()));
            }
        }
    }

    /// The shape of the named type `id`: a reference to its declaration,
    /// which is made sure to exist as `insert_with` does. This is how a
    /// named type reflects itself.
    pub fn reflect_with<F: FnOnce(&mut TypeContext) -> TypeDecl>(
        &mut self,
        id: String,
        build: F,
    ) -> (shape: Type)
        requires
            forall|c: &mut TypeContext|
                opened(*c, *old(self), id@) ==> #[trigger] call_requires(build, (c,)),
            forall|c: &mut TypeContext, d: TypeDecl|
                opened(*c, *old(self), id@) && #[trigger] call_ensures(build, (c,), d)
                    ==> final(c).extends(&*c),
        ensures
            shape@ == TypeView::Id(id@),
            final(self).extends(old(self)),
            resolved_in(shape@, final(self).known()),
            old(self).known().contains(id@) ==> final(self)@ == old(self)@,
            old(self).known().contains(id@) ==> final(self).order() == old(self).order(),
            !old(self).known().contains(id@) ==> exists|c: &mut TypeContext, d: TypeDecl|
                {
                    &&& opened(*c, *old(self), id@)
                    &&& #[trigger] call_ensures(build, (c,), d)
                    &&& final(self)@ == final(c)@.insert(id@, d@)
                    &&& final(self).order() == final(c).order().push(id@)
                },
    {
        let key = id.clone();
        self.insert_with(key, build);
        proof {
            self.lemma_extends_known(old(self));
        }
        Type::Id(id)
    }

    /// The finished declarations, each with its identifier, in the order in
    /// which they were filed. No identifier occurs twice.
    pub fn into_types(self) -> (types: Vec<(String, TypeDecl)>)
        ensures
            entry_ids(types@) == self.order(),
            entry_ids(types@).no_duplicates(),
            entries_map(types@) == self@,
            types@.len() == self@.len(),
    {
        proof {
            use_type_invariant(&self);
            let ids = entry_ids(self.types@);
            assert(self@.dom() =~= ids.to_set());
            ids.unique_seq_to_set();
        }
        self.types
    }
}

impl Default for TypeContext {
    /// An empty registry.
    fn default() -> (cx: TypeContext)
        ensures
            cx@ == Map::<Seq<char>, TypeDeclView>::empty(),
            cx.reserved() == Set::<Seq<char>>::empty(),
    {
        TypeContext::new()
    }
}

impl Clone for TypeContext {
    /// A deep copy: the same table, the same identifiers reserved.
    fn clone(&self) -> (copy: TypeContext)
        ensures
            copy@ == self@,
            copy.order() == self.order(),
            copy.reserved() == self.reserved(),
    {
        proof {
            use_type_invariant(self);
        }
        let mut types: Vec<(String, TypeDecl)> = Vec::new();
        let mut i: usize = 0;
        while i < self.types.len()
            invariant
                i <= self.types.len(),
                types.len() == i,
                forall|j: int|
                    0 <= j < i ==> (#[trigger] types@[j]).0@ == self.types@[j].0@ && types@[j].1@
                        == self.types@[j].1@,
            decreases self.types.len() - i,
        {
            types.push((self.types[i].0.clone(), self.types[i].1.clone()));
            i += 1;
        }
        let mut pending: Vec<String> = Vec::new();
        let mut k: usize = 0;
        while k < self.pending.len()
            invariant
                k <= self.pending.len(),
                pending.len() == k,
                forall|j: int| 0 <= j < k ==> (#[trigger] pending@[j])@ == self.pending@[j]@,
            decreases self.pending.len() - k,
        {
            pending.push(self.pending[k].clone());
            k += 1;
        }
        proof {
            assert(entry_ids(types@) =~= entry_ids(self.types@));
            assert(names_view(pending@) =~= names_view(self.pending@));
            assert(entries_map(types@) =~= entries_map(self.types@)) by {
                assert forall|id: Seq<char>| entry_ids(types@).contains(id) implies entries_map(
                    types@,
                )[id] == entries_map(self.types@)[id] by {
                    let at = entry_ids(types@).index_of(id);
                    assert(types@[at].1@ == self.types@[at].1@);
                }
            }
        }
        TypeContext { types, pending }
    }
}

} // verus!
