//! A catalog of derived declarations, and the expansion of a shape against
//! it: the registration of every declaration that the shape refers to,
//! directly or through other declarations.
//!
//! Where two entries of a catalog carry the same identifier, the first one
//! stands for it.

use crate::derive::{Derived, DerivedView};
use crate::reflection::{
    fields_mention, fields_view, lemma_tuple_mentions, lemma_tuple_view, types_view,
    variants_mention, variants_view, EnumVariantKind, EnumVariantView, Field, FieldView, Type,
    TypeDecl, TypeDeclView, TypeView,
};
use crate::registry::{opened, TypeContext};
use crate::text::str_eq;
use vstd::prelude::*;

verus! {

/// The derived declarations of a program, in the order in which they were
/// added.
#[derive(Debug)]
pub struct Catalog {
    pub items: Vec<Derived>,
}

impl View for Catalog {
    type V = Seq<DerivedView>;

    open spec fn view(&self) -> Seq<DerivedView> {
        Seq::new(self.items@.len(), |i: int| self.items@[i]@)
    }
}

/// Whether `at` is the first place in `cat` that carries the identifier
/// `id`.
pub open spec fn first_at(cat: Seq<DerivedView>, id: Seq<char>, at: int) -> bool {
    &&& 0 <= at < cat.len()
    &&& cat[at].id == id
    &&& forall|j: int| 0 <= j < at ==> (#[trigger] cat[j]).id != id
}

/// Whether `cat` holds a declaration for `id`.
pub open spec fn catalogued(cat: Seq<DerivedView>, id: Seq<char>) -> bool {
    exists|at: int| first_at(cat, id, at)
}

/// The declaration that `cat` holds for `id`.
pub open spec fn decl_in(cat: Seq<DerivedView>, id: Seq<char>) -> TypeDeclView {
    cat[choose|at: int| first_at(cat, id, at)].decl
}

/// Whether the declaration of `from` in `cat` mentions `to`.
pub open spec fn refers(cat: Seq<DerivedView>, from: Seq<char>, to: Seq<char>) -> bool {
    catalogued(cat, from) && decl_in(cat, from).mentions(to)
}

/// Whether `n` references lead from `from` to `to`, through catalogued
/// declarations only.
pub open spec fn steps(cat: Seq<DerivedView>, from: Seq<char>, to: Seq<char>, n: nat) -> bool
    decreases n,
{
    &&& catalogued(cat, from)
    &&& if n == 0 {
        from == to
    } else {
        exists|next: Seq<char>| #[trigger]
            refers(cat, from, next) && steps(cat, next, to, (n - 1) as nat)
    }
}

/// Whether `id` is a catalogued declaration that one of `roots` is, or
/// refers to through any number of references.
pub open spec fn reached(cat: Seq<DerivedView>, roots: Set<Seq<char>>, id: Seq<char>) -> bool {
    exists|from: Seq<char>, n: nat| roots.contains(from) && #[trigger] steps(cat, from, id, n)
}

/// The identifiers that `shape` mentions.
pub open spec fn shape_ids(shape: TypeView) -> Set<Seq<char>> {
    Set::new(|id: Seq<char>| shape.mentions(id))
}

/// The identifiers that the fields `fields` mention.
pub open spec fn fields_ids(fields: Seq<FieldView>) -> Set<Seq<char>> {
    Set::new(|id: Seq<char>| fields_mention(fields, id))
}

/// The identifiers that the declaration `decl` mentions.
pub open spec fn decl_ids(decl: TypeDeclView) -> Set<Seq<char>> {
    Set::new(|id: Seq<char>| decl.mentions(id))
}

/// Whether the entry of `cx` for `id` is the catalog's declaration, with
/// every catalogued identifier that it mentions known to `cx`.
pub open spec fn settled(cat: Seq<DerivedView>, cx: TypeContext, id: Seq<char>) -> bool {
    &&& catalogued(cat, id)
    &&& cx@[id] == decl_in(cat, id)
    &&& forall|x: Seq<char>| #[trigger]
        decl_in(cat, id).mentions(x) && catalogued(cat, x) ==> cx.known().contains(x)
}

/// Whether `after` is `before` expanded by `roots`:
/// what `before` held is unchanged; every catalogued root is known; and
/// every new entry is the catalog's declaration of an identifier reached
/// from the roots, with what it mentions known in turn.
pub open spec fn expanded(
    cat: Seq<DerivedView>,
    before: TypeContext,
    roots: Set<Seq<char>>,
    after: TypeContext,
) -> bool {
    &&& after.extends(&before)
    &&& forall|id: Seq<char>| #[trigger]
        roots.contains(id) && catalogued(cat, id) ==> after.known().contains(id)
    &&& forall|id: Seq<char>| #[trigger]
        after@.dom().contains(id) && !before@.dom().contains(id) ==> settled(cat, after, id)
            && reached(cat, roots, id)
}

/// The number of entries of `cat` whose identifier is not among `known`:
/// what an expansion can still add.
pub open spec fn unknown(cat: Seq<DerivedView>, known: Set<Seq<char>>) -> nat
    decreases cat.len(),
{
    if cat.len() == 0 {
        0
    } else {
        unknown(cat.drop_last(), known) + if known.contains(cat.last().id) {
            0nat
        } else {
            1nat
        }
    }
}

/// Knowing more leaves no more to add.
pub proof fn lemma_unknown_monotone(
    cat: Seq<DerivedView>,
    fewer: Set<Seq<char>>,
    more: Set<Seq<char>>,
)
    requires
        fewer.subset_of(more),
    ensures
        unknown(cat, more) <= unknown(cat, fewer),
    decreases cat.len(),
{
    if cat.len() > 0 {
        lemma_unknown_monotone(cat.drop_last(), fewer, more);
    }
}

/// Coming to know a catalogued identifier leaves strictly less to add.
pub proof fn lemma_unknown_strict(
    cat: Seq<DerivedView>,
    fewer: Set<Seq<char>>,
    more: Set<Seq<char>>,
    at: int,
)
    requires
        fewer.subset_of(more),
        0 <= at < cat.len(),
        !fewer.contains(cat[at].id),
        more.contains(cat[at].id),
    ensures
        unknown(cat, more) < unknown(cat, fewer),
    decreases cat.len(),
{
    if at == cat.len() - 1 {
        lemma_unknown_monotone(cat.drop_last(), fewer, more);
    } else {
        lemma_unknown_strict(cat.drop_last(), fewer, more, at);
    }
}

/// A reference followed by `n` references makes `n + 1` references.
pub proof fn lemma_steps_prepend(
    cat: Seq<DerivedView>,
    from: Seq<char>,
    next: Seq<char>,
    to: Seq<char>,
    n: nat,
)
    requires
        refers(cat, from, next),
        steps(cat, next, to, n),
    ensures
        steps(cat, from, to, n + 1),
{
    assert(steps(cat, next, to, ((n + 1) - 1) as nat));
}

/// A registry is its own expansion by roots that it knows.
pub proof fn lemma_expanded_nothing(cat: Seq<DerivedView>, cx: TypeContext, roots: Set<Seq<char>>)
    requires
        forall|id: Seq<char>| #[trigger]
            roots.contains(id) && catalogued(cat, id) ==> cx.known().contains(id),
    ensures
        expanded(cat, cx, roots, cx),
{
}

/// What is reached from some roots is reached from more roots.
pub proof fn lemma_reached_monotone(
    cat: Seq<DerivedView>,
    fewer: Set<Seq<char>>,
    more: Set<Seq<char>>,
    id: Seq<char>,
)
    requires
        fewer.subset_of(more),
        reached(cat, fewer, id),
    ensures
        reached(cat, more, id),
{
    let (from, n) = choose|from: Seq<char>, n: nat|
        fewer.contains(from) && #[trigger] steps(cat, from, id, n);
    assert(more.contains(from) && steps(cat, from, id, n));
}

/// An entry that is settled stays settled in an extension.
pub proof fn lemma_settled_extends(
    cat: Seq<DerivedView>,
    before: TypeContext,
    after: TypeContext,
    id: Seq<char>,
)
    requires
        after.extends(&before),
        before@.dom().contains(id),
        settled(cat, before, id),
    ensures
        settled(cat, after, id),
{
    after.lemma_extends_known(&before);
    assert(after@.dom().contains(id));
}

/// Expanding by some roots and then by others expands by all of them.
pub proof fn lemma_expanded_then(
    cat: Seq<DerivedView>,
    first: TypeContext,
    roots: Set<Seq<char>>,
    middle: TypeContext,
    more_roots: Set<Seq<char>>,
    last: TypeContext,
)
    requires
        expanded(cat, first, roots, middle),
        expanded(cat, middle, more_roots, last),
    ensures
        expanded(cat, first, roots.union(more_roots), last),
{
    let all = roots.union(more_roots);
    last.lemma_extends_transitive(&middle, &first);
    last.lemma_extends_known(&middle);
    assert forall|id: Seq<char>| #[trigger]
        all.contains(id) && catalogued(cat, id) implies last.known().contains(id) by {
        if roots.contains(id) {
            assert(middle.known().contains(id));
        }
    }
    assert forall|id: Seq<char>| #[trigger]
        last@.dom().contains(id) && !first@.dom().contains(id) implies settled(cat, last, id)
        && reached(cat, all, id) by {
        if middle@.dom().contains(id) {
            lemma_settled_extends(cat, middle, last, id);
            lemma_reached_monotone(cat, roots, all, id);
        } else {
            lemma_reached_monotone(cat, more_roots, all, id);
        }
    }
}

/// Expanding by the references of a catalogued declaration, with its
/// identifier reserved meanwhile, and filing the declaration afterwards,
/// expands by that identifier.
pub proof fn lemma_expanded_named(
    cat: Seq<DerivedView>,
    start: TypeContext,
    id: Seq<char>,
    held: TypeContext,
    inner: TypeContext,
    closed: TypeContext,
)
    requires
        catalogued(cat, id),
        !start.known().contains(id),
        opened(held, start, id),
        expanded(cat, held, decl_ids(decl_in(cat, id)), inner),
        closed@ == inner@.insert(id, decl_in(cat, id)),
        closed.order() == inner.order().push(id),
        closed.reserved() == inner.reserved().remove(id),
    ensures
        expanded(cat, start, shape_ids(TypeView::Id(id)), closed),
{
    let roots = shape_ids(TypeView::Id(id));
    let decl = decl_in(cat, id);
    assert(closed.reserved() =~= start.reserved());
    assert(start.order().is_prefix_of(closed.order())) by {
        assert(inner.order().is_prefix_of(closed.order()));
    }
    assert(start@.submap_of(closed@)) by {
        assert forall|k: Seq<char>| #[trigger] start@.dom().contains(k) implies closed@.dom().contains(
            k,
        ) && start@[k] == closed@[k] by {
            assert(held@.dom().contains(k));
            assert(inner@.dom().contains(k));
            assert(k != id);
        }
    }
    assert(inner.known().subset_of(closed.known())) by {
        assert forall|k: Seq<char>| inner.known().contains(k) implies closed.known().contains(
            k,
        ) by {
            if k != id && inner.reserved().contains(k) {
                assert(closed.reserved().contains(k));
            }
        }
    }
    assert forall|k: Seq<char>| #[trigger]
        roots.contains(k) && catalogued(cat, k) implies closed.known().contains(k) by {
        assert(closed@.dom().contains(id));
    }
    assert forall|k: Seq<char>| #[trigger]
        closed@.dom().contains(k) && !start@.dom().contains(k) implies settled(cat, closed, k)
        && reached(cat, roots, k) by {
        assert(roots.contains(id));
        if k == id {
            assert forall|x: Seq<char>| #[trigger]
                decl.mentions(x) && catalogued(cat, x) implies closed.known().contains(x) by {
                assert(decl_ids(decl).contains(x));
                assert(inner.known().contains(x));
            }
            assert(steps(cat, id, id, 0));
        } else {
            assert(inner@.dom().contains(k));
            assert(!held@.dom().contains(k));
            assert(settled(cat, inner, k));
            assert(closed@[k] == inner@[k]);
            let (from, n) = choose|from: Seq<char>, n: nat|
                decl_ids(decl).contains(from) && #[trigger] steps(cat, from, k, n);
            assert(refers(cat, id, from));
            lemma_steps_prepend(cat, id, from, k, n);
        }
    }
}

/// At most one place is the first to carry an identifier.
pub proof fn lemma_first_at_unique(cat: Seq<DerivedView>, id: Seq<char>, a: int, b: int)
    requires
        first_at(cat, id, a),
        first_at(cat, id, b),
    ensures
        a == b,
{
    if a < b {
        assert(cat[a].id != id);
    }
    if b < a {
        assert(cat[b].id != id);
    }
}

/// The identifiers that the variants `variants` mention.
pub open spec fn variants_ids(variants: Seq<EnumVariantView>) -> Set<
    Seq<char>,
> {
    Set::new(|id: Seq<char>| variants_mention(variants, id))
}

impl Catalog {
    /// An empty catalog.
    pub fn new() -> (cat: Catalog)
        ensures
            cat@ == Seq::<DerivedView>::empty(),
    {
        let cat = Catalog { items: Vec::new() };
        assert(cat@ =~= Seq::<DerivedView>::empty());
        cat
    }

    /// Adds a derived declaration at the end.
    pub fn add(&mut self, derived: Derived)
        ensures
            final(self)@ == old(self)@.push(derived@),
    {
        self.items.push(derived);
        assert(self@ =~= old(self)@.push(derived@));
    }

    /// The number of entries.
    pub fn len(&self) -> (n: usize)
        ensures
            n == self@.len(),
    {
        self.items.len()
    }

    /// The first place that carries `id`.
    fn position(&self, id: &str) -> (at: Option<usize>)
        ensures
            at is Some <==> catalogued(self@, id@),
            at is Some ==> first_at(self@, id@, at->0 as int),
    {
        let mut i: usize = 0;
        while i < self.items.len()
            invariant
                i <= self.items.len(),
                forall|j: int| 0 <= j < i ==> (#[trigger] self@[j]).id != id@,
            decreases self.items.len() - i,
        {
            if str_eq(self.items[i].id.as_str(), id) {
                assert(self@[i as int].id == id@);
                assert(first_at(self@, id@, i as int));
                return Some(i);
            }
            assert(self@[i as int].id != id@);
            i += 1;
        }
        assert forall|at: int| !first_at(self@, id@, at) by {
            if 0 <= at < self@.len() {
                assert(self@[at].id != id@);
            }
        }
        None
    }

    /// The declaration that stands for `id`, where the catalog has one.
    pub fn find(&self, id: &str) -> (found: Option<&Derived>)
        ensures
            found is Some <==> catalogued(self@, id@),
            found is Some ==> found->0@.id == id@ && found->0@.decl == decl_in(self@, id@),
    {
        match self.position(id) {
            Some(at) => {
                proof {
                    let first = choose|first: int| first_at(self@, id@, first);
                    lemma_first_at_unique(self@, id@, first, at as int);
                    assert(self@[at as int] == self.items@[at as int]@);
                }
                Some(&self.items[at])
            },
            None => None,
        }
    }

    /// Expands `cx` by `shape`: registers the declaration of every
    /// catalogued identifier that `shape` mentions and `cx` does not know,
    /// and in turn of those that these declarations mention. An identifier
    /// that the catalog does not hold is passed over.
    pub fn register(&self, cx: &mut TypeContext, shape: &Type)
        ensures
            expanded(self@, *old(cx), shape_ids(shape@), *final(cx)),
        decreases unknown(self@, old(cx).known()), 0nat, shape,
    {
        let ghost start = *cx;
        match shape {
            Type::Primitive(_) => {
                proof {
                    lemma_expanded_nothing(self@, start, shape_ids(shape@));
                }
            },
            Type::Option(inner) => {
                self.register(cx, inner);
                assert(shape_ids(shape@) =~= shape_ids(inner@));
            },
            Type::Array(inner) => {
                self.register(cx, inner);
                assert(shape_ids(shape@) =~= shape_ids(inner@));
            },
            Type::Mapping(inner) => {
                self.register(cx, inner);
                assert(shape_ids(shape@) =~= shape_ids(inner@));
            },
            Type::Tuple(items) => {
                let ghost models = types_view(items@);
                proof {
                    lemma_tuple_view(*items);
                    assert(shape_ids(TypeView::Tuple(models.subrange(0, 0))) =~= Set::<
                        Seq<char>,
                    >::empty());
                    lemma_expanded_nothing(
                        self@,
                        start,
                        shape_ids(TypeView::Tuple(models.subrange(0, 0))),
                    );
                }
                let mut i: usize = 0;
                while i < items.len()
                    invariant
                        i <= items.len(),
                        *shape == Type::Tuple(*items),
                        models == types_view(items@),
                        start == *old(cx),
                        expanded(
                            self@,
                            start,
                            shape_ids(TypeView::Tuple(models.subrange(0, i as int))),
                            *cx,
                        ),
                    decreases items.len() - i,
                {
                    let ghost middle = *cx;
                    proof {
                        cx.lemma_extends_known(&start);
                        lemma_unknown_monotone(self@, start.known(), cx.known());
                        assert(decreases_to!(*shape => shape->Tuple_0));
                    }
                    self.register(cx, &items[i]);
                    proof {
                        let before = shape_ids(TypeView::Tuple(models.subrange(0, i as int)));
                        let here = shape_ids(items@[i as int]@);
                        let after = shape_ids(TypeView::Tuple(models.subrange(0, i + 1)));
                        lemma_expanded_then(self@, start, before, middle, here, *cx);
                        assert(after =~= before.union(here)) by {
                            lemma_prefix_ids(models, i as int);
                        }
                    }
                    i += 1;
                }
                assert(models.subrange(0, items@.len() as int) =~= models);
            },
            Type::Id(id) => {
                let ghost roots = shape_ids(shape@);
                if cx.is_known(id.as_str()) {
                    proof {
                        lemma_expanded_nothing(self@, start, roots);
                    }
                } else {
                    match self.position(id.as_str()) {
                        None => {
                            proof {
                                lemma_expanded_nothing(self@, start, roots);
                            }
                        },
                        Some(at) => {
                            proof {
                                let first = choose|first: int| first_at(self@, id@, first);
                                lemma_first_at_unique(self@, id@, first, at as int);
                                assert(self@[at as int] == self.items@[at as int]@);
                            }
                            cx.reserve(id.clone());
                            let ghost held = *cx;
                            proof {
                                assert(start.known().subset_of(held.known()));
                                lemma_unknown_strict(
                                    self@,
                                    start.known(),
                                    held.known(),
                                    at as int,
                                );
                            }
                            self.register_decl(cx, &self.items[at].decl);
                            let ghost inner = *cx;
                            cx.declare(id.clone(), self.items[at].decl.clone());
                            proof {
                                lemma_expanded_named(self@, start, id@, held, inner, *cx);
                            }
                        },
                    }
                }
            },
        }
    }

    /// Expands `cx` by the shapes of `fields`, in order.
    fn register_fields(&self, cx: &mut TypeContext, fields: &Vec<Field>)
        ensures
            expanded(self@, *old(cx), fields_ids(fields_view(fields@)), *final(cx)),
        decreases unknown(self@, old(cx).known()), 1nat,
    {
        let ghost start = *cx;
        let ghost models = fields_view(fields@);
        proof {
            assert(fields_ids(models.subrange(0, 0)) =~= Set::<Seq<char>>::empty());
            lemma_expanded_nothing(self@, start, fields_ids(models.subrange(0, 0)));
        }
        let mut i: usize = 0;
        while i < fields.len()
            invariant
                i <= fields.len(),
                models == fields_view(fields@),
                start == *old(cx),
                expanded(self@, start, fields_ids(models.subrange(0, i as int)), *cx),
            decreases fields.len() - i,
        {
            let ghost middle = *cx;
            proof {
                cx.lemma_extends_known(&start);
                lemma_unknown_monotone(self@, start.known(), cx.known());
            }
            self.register(cx, &fields[i].type_desc);
            proof {
                let before = fields_ids(models.subrange(0, i as int));
                let here = shape_ids(fields@[i as int].type_desc@);
                let after = fields_ids(models.subrange(0, i + 1));
                lemma_expanded_then(self@, start, before, middle, here, *cx);
                assert(after =~= before.union(here)) by {
                    lemma_prefix_fields_ids(models, i as int);
                }
            }
            i += 1;
        }
        assert(models.subrange(0, fields@.len() as int) =~= models);
    }

    /// Expands `cx` by the shapes that `decl` holds, in order.
    fn register_decl(&self, cx: &mut TypeContext, decl: &TypeDecl)
        ensures
            expanded(self@, *old(cx), decl_ids(decl@), *final(cx)),
        decreases unknown(self@, old(cx).known()), 2nat,
    {
        let ghost start = *cx;
        match decl {
            TypeDecl::Struct(s) => {
                self.register_fields(cx, &s.fields);
                assert(decl_ids(decl@) =~= fields_ids(fields_view(s.fields@)));
            },
            TypeDecl::Enum(e) => {
                let ghost models = variants_view(e.variants@);
                proof {
                    assert(variants_ids(models.subrange(0, 0)) =~= Set::<Seq<char>>::empty());
                    lemma_expanded_nothing(self@, start, variants_ids(models.subrange(0, 0)));
                }
                let mut i: usize = 0;
                while i < e.variants.len()
                    invariant
                        i <= e.variants.len(),
                        models == variants_view(e.variants@),
                        start == *old(cx),
                        expanded(self@, start, variants_ids(models.subrange(0, i as int)), *cx),
                    decreases e.variants.len() - i,
                {
                    let ghost middle = *cx;
                    let ghost here = Set::new(|id: Seq<char>| models[i as int].kind.mentions(id));
                    proof {
                        cx.lemma_extends_known(&start);
                        lemma_unknown_monotone(self@, start.known(), cx.known());
                    }
                    match &e.variants[i].kind {
                        EnumVariantKind::Unit => {
                            proof {
                                assert(here =~= Set::<Seq<char>>::empty());
                                lemma_expanded_nothing(self@, middle, here);
                            }
                        },
                        EnumVariantKind::NewType(inner) => {
                            self.register(cx, inner);
                            assert(here =~= shape_ids(inner@));
                        },
                        EnumVariantKind::Struct(fields) => {
                            self.register_fields(cx, fields);
                            assert(here =~= fields_ids(fields_view(fields@)));
                        },
                    }
                    proof {
                        let before = variants_ids(models.subrange(0, i as int));
                        let after = variants_ids(models.subrange(0, i + 1));
                        lemma_expanded_then(self@, start, before, middle, here, *cx);
                        assert(after =~= before.union(here)) by {
                            lemma_prefix_variants_ids(models, i as int);
                        }
                    }
                    i += 1;
                }
                assert(models.subrange(0, e.variants@.len() as int) =~= models);
                assert(decl_ids(decl@) =~= variants_ids(models));
            },
        }
    }
}

/// The identifiers in the first `i + 1` items of a tuple are those in the
/// first `i` and those in the item at `i`.
proof fn lemma_prefix_ids(items: Seq<TypeView>, i: int)
    requires
        0 <= i < items.len(),
    ensures
        shape_ids(TypeView::Tuple(items.subrange(0, i + 1))) == shape_ids(
            TypeView::Tuple(items.subrange(0, i)),
        ).union(shape_ids(items[i])),
{
    let shorter = items.subrange(0, i);
    let longer = items.subrange(0, i + 1);
    assert(longer[i] == items[i]);
    assert forall|id: Seq<char>|
        TypeView::Tuple(longer).mentions(id) <==> TypeView::Tuple(shorter).mentions(id)
            || items[i].mentions(id) by {
        lemma_tuple_mentions(longer, id);
        lemma_tuple_mentions(shorter, id);
        if TypeView::Tuple(longer).mentions(id) {
            let j = choose|j: int| 0 <= j < longer.len() && (#[trigger] longer[j]).mentions(id);
            if j < i {
                assert(shorter[j] == longer[j]);
            }
        }
        if TypeView::Tuple(shorter).mentions(id) {
            let j = choose|j: int| 0 <= j < shorter.len() && (#[trigger] shorter[j]).mentions(id);
            assert(longer[j] == shorter[j]);
        }
        if items[i].mentions(id) {
            assert(longer[i].mentions(id));
        }
    }
    assert(shape_ids(TypeView::Tuple(longer)) =~= shape_ids(TypeView::Tuple(shorter)).union(
        shape_ids(items[i]),
    ));
}

/// The identifiers in the first `i + 1` fields are those in the first `i`
/// and those in the field at `i`.
proof fn lemma_prefix_fields_ids(fields: Seq<FieldView>, i: int)
    requires
        0 <= i < fields.len(),
    ensures
        fields_ids(fields.subrange(0, i + 1)) == fields_ids(fields.subrange(0, i)).union(
            shape_ids(fields[i].type_desc),
        ),
{
    let shorter = fields.subrange(0, i);
    let longer = fields.subrange(0, i + 1);
    assert forall|id: Seq<char>|
        fields_mention(longer, id) <==> fields_mention(shorter, id) || fields[i].type_desc.mentions(
            id,
        ) by {
        if fields_mention(longer, id) {
            let j = choose|j: int|
                0 <= j < longer.len() && (#[trigger] longer[j]).type_desc.mentions(id);
            if j < i {
                assert(shorter[j].type_desc.mentions(id));
            }
        }
        if fields_mention(shorter, id) {
            let j = choose|j: int|
                0 <= j < shorter.len() && (#[trigger] shorter[j]).type_desc.mentions(id);
            assert(longer[j].type_desc.mentions(id));
        }
        if fields[i].type_desc.mentions(id) {
            assert(longer[i].type_desc.mentions(id));
        }
    }
    assert(fields_ids(longer) =~= fields_ids(shorter).union(shape_ids(fields[i].type_desc)));
}

/// The identifiers in the first `i + 1` variants are those in the first
/// `i` and those in the variant at `i`.
proof fn lemma_prefix_variants_ids(variants: Seq<EnumVariantView>, i: int)
    requires
        0 <= i < variants.len(),
    ensures
        variants_ids(variants.subrange(0, i + 1)) == variants_ids(variants.subrange(0, i)).union(
            Set::new(|id: Seq<char>| variants[i].kind.mentions(id)),
        ),
{
    let shorter = variants.subrange(0, i);
    let longer = variants.subrange(0, i + 1);
    assert forall|id: Seq<char>|
        variants_mention(longer, id) <==> variants_mention(
            shorter,
            id,
        ) || variants[i].kind.mentions(id) by {
        if variants_mention(longer, id) {
            let j = choose|j: int| 0 <= j < longer.len() && (#[trigger] longer[j]).kind.mentions(id);
            if j < i {
                assert(shorter[j].kind.mentions(id));
            }
        }
        if variants_mention(shorter, id) {
            let j = choose|j: int|
                0 <= j < shorter.len() && (#[trigger] shorter[j]).kind.mentions(id);
            assert(longer[j].kind.mentions(id));
        }
        if variants[i].kind.mentions(id) {
            assert(longer[i].kind.mentions(id));
        }
    }
    assert(variants_ids(longer) =~= variants_ids(shorter).union(
        Set::new(|id: Seq<char>| variants[i].kind.mentions(id)),
    ));
}

/// Whether every entry of `cx` is settled: the catalog's declaration,
/// with what it mentions known.
pub open spec fn all_settled(cat: Seq<DerivedView>, cx: TypeContext) -> bool {
    forall|id: Seq<char>| #[trigger] cx@.dom().contains(id) ==> settled(cat, cx, id)
}

/// The declarations that `roots` reach in `cat`, each under its
/// identifier.
pub open spec fn closure(cat: Seq<DerivedView>, roots: Set<Seq<char>>) -> Map<
    Seq<char>,
    TypeDeclView,
> {
    Map::new(|id: Seq<char>| reached(cat, roots, id), |id: Seq<char>| decl_in(cat, id))
}

/// An expansion of a registry whose entries are settled leaves them all
/// settled.
pub proof fn lemma_expanded_settled(
    cat: Seq<DerivedView>,
    before: TypeContext,
    roots: Set<Seq<char>>,
    after: TypeContext,
)
    requires
        expanded(cat, before, roots, after),
        all_settled(cat, before),
    ensures
        all_settled(cat, after),
{
    assert forall|id: Seq<char>| #[trigger] after@.dom().contains(id) implies settled(
        cat,
        after,
        id,
    ) by {
        if before@.dom().contains(id) {
            lemma_settled_extends(cat, before, after, id);
        }
    }
}

/// In a registry whose entries are settled and which has nothing
/// reserved, whatever a held identifier reaches is held too.
pub proof fn lemma_settled_closed(
    cat: Seq<DerivedView>,
    cx: TypeContext,
    from: Seq<char>,
    to: Seq<char>,
    n: nat,
)
    requires
        all_settled(cat, cx),
        cx.reserved() == Set::<Seq<char>>::empty(),
        cx@.dom().contains(from),
        steps(cat, from, to, n),
    ensures
        cx@.dom().contains(to),
    decreases n,
{
    if n > 0 {
        let next = choose|next: Seq<char>| #[trigger]
            refers(cat, from, next) && steps(cat, next, to, (n - 1) as nat);
        assert(settled(cat, cx, from));
        assert(decl_in(cat, from).mentions(next) && catalogued(cat, next));
        assert(cx.known().contains(next));
        lemma_settled_closed(cat, cx, next, to, (n - 1) as nat);
    }
}

/// An expansion adds exactly what the roots reach.
///
/// Where every entry of `before` is settled and nothing is reserved, the
/// table after the expansion holds what `before` held and, besides, the
/// catalog's declaration of every identifier that the roots reach.
pub proof fn lemma_expanded_exact(
    cat: Seq<DerivedView>,
    before: TypeContext,
    roots: Set<Seq<char>>,
    after: TypeContext,
)
    requires
        expanded(cat, before, roots, after),
        all_settled(cat, before),
        before.reserved() == Set::<Seq<char>>::empty(),
    ensures
        after@ == before@.union_prefer_right(closure(cat, roots)),
        all_settled(cat, after),
{
    lemma_expanded_settled(cat, before, roots, after);
    let sum = before@.union_prefer_right(closure(cat, roots));
    assert forall|id: Seq<char>| reached(cat, roots, id) implies after@.dom().contains(id) by {
        let (from, n) = choose|from: Seq<char>, n: nat|
            roots.contains(from) && #[trigger] steps(cat, from, id, n);
        assert(catalogued(cat, from));
        assert(after.known().contains(from));
        lemma_settled_closed(cat, after, from, id, n);
    }
    assert forall|id: Seq<char>| after@.dom().contains(id) <==> sum.dom().contains(id) by {
        if after@.dom().contains(id) && !before@.dom().contains(id) {
            assert(reached(cat, roots, id));
        }
    }
    assert forall|id: Seq<char>| after@.dom().contains(id) implies after@[id] == sum[id] by {
        assert(settled(cat, after, id));
    }
    assert(after@ =~= sum);
}

/// Expanding again by roots that were expanded before adds nothing: a
/// declaration is filed once, however often it is reached.
pub proof fn lemma_expanded_again(
    cat: Seq<DerivedView>,
    before: TypeContext,
    roots: Set<Seq<char>>,
    once: TypeContext,
    again_roots: Set<Seq<char>>,
    twice: TypeContext,
)
    requires
        expanded(cat, before, roots, once),
        expanded(cat, once, again_roots, twice),
        again_roots.subset_of(roots),
        all_settled(cat, before),
        before.reserved() == Set::<Seq<char>>::empty(),
    ensures
        twice@ == once@,
{
    lemma_expanded_exact(cat, before, roots, once);
    assert forall|id: Seq<char>| twice@.dom().contains(id) implies once@.dom().contains(id) by {
        if !once@.dom().contains(id) {
            lemma_reached_monotone(cat, again_roots, roots, id);
            assert(closure(cat, roots).dom().contains(id));
        }
    }
    assert(twice@ =~= once@);
}

/// Expansion is determined by its inputs: two expansions of registries
/// with the same table, by the same roots, end in the same table.
pub proof fn lemma_expanded_deterministic(
    cat: Seq<DerivedView>,
    before: TypeContext,
    other_before: TypeContext,
    roots: Set<Seq<char>>,
    after: TypeContext,
    other_after: TypeContext,
)
    requires
        expanded(cat, before, roots, after),
        expanded(cat, other_before, roots, other_after),
        before@ == other_before@,
        all_settled(cat, before),
        before.reserved() == Set::<Seq<char>>::empty(),
        other_before.reserved() == Set::<Seq<char>>::empty(),
    ensures
        after@ == other_after@,
{
    assert(all_settled(cat, other_before)) by {
        assert forall|id: Seq<char>| #[trigger]
            other_before@.dom().contains(id) implies settled(cat, other_before, id) by {
            assert(settled(cat, before, id));
            assert(before.known() =~= other_before.known());
        }
    }
    lemma_expanded_exact(cat, before, roots, after);
    lemma_expanded_exact(cat, other_before, roots, other_after);
}

} // verus!
