//! `Reflect` for the primitives and containers of the language.
//!
//! A container reports the shapes that its parts report: its contract
//! names the calls of their `reflect` that it makes, in order, each on the
//! registry that the one before left.

use crate::reflection::{
    lemma_tuple_mentions, lemma_tuple_view, resolved_in, types_view, IntWidth, PrimitiveType,
    Reflect, Type, TypeView,
};
use crate::registry::TypeContext;
use vstd::prelude::*;

verus! {

impl Reflect for i8 {
    fn type_id() -> (id: Option<String>)
        ensures
            id is None,
    {
        None
    }

    fn reflect(cx: &mut TypeContext) -> (shape: Type)
        ensures
            shape@ == TypeView::Primitive(PrimitiveType::Int(IntWidth::W8)),
            final(cx)@ == old(cx)@,
    {
        Type::Primitive(PrimitiveType::Int(IntWidth::W8))
    }
}

impl Reflect for i16 {
    fn type_id() -> (id: Option<String>)
        ensures
            id is None,
    {
        None
    }

    fn reflect(cx: &mut TypeContext) -> (shape: Type)
        ensures
            shape@ == TypeView::Primitive(PrimitiveType::Int(IntWidth::W16)),
            final(cx)@ == old(cx)@,
    {
        Type::Primitive(PrimitiveType::Int(IntWidth::W16))
    }
}

impl Reflect for i32 {
    fn type_id() -> (id: Option<String>)
        ensures
            id is None,
    {
        None
    }

    fn reflect(cx: &mut TypeContext) -> (shape: Type)
        ensures
            shape@ == TypeView::Primitive(PrimitiveType::Int(IntWidth::W32)),
            final(cx)@ == old(cx)@,
    {
        Type::Primitive(PrimitiveType::Int(IntWidth::W32))
    }
}

impl Reflect for i64 {
    fn type_id() -> (id: Option<String>)
        ensures
            id is None,
    {
        None
    }

    fn reflect(cx: &mut TypeContext) -> (shape: Type)
        ensures
            shape@ == TypeView::Primitive(PrimitiveType::Int(IntWidth::W64)),
            final(cx)@ == old(cx)@,
    {
        Type::Primitive(PrimitiveType::Int(IntWidth::W64))
    }
}

impl Reflect for i128 {
    fn type_id() -> (id: Option<String>)
        ensures
            id is None,
    {
        None
    }

    fn reflect(cx: &mut TypeContext) -> (shape: Type)
        ensures
            shape@ == TypeView::Primitive(PrimitiveType::Int(IntWidth::W128)),
            final(cx)@ == old(cx)@,
    {
        Type::Primitive(PrimitiveType::Int(IntWidth::W128))
    }
}

impl Reflect for u8 {
    fn type_id() -> (id: Option<String>)
        ensures
            id is None,
    {
        None
    }

    fn reflect(cx: &mut TypeContext) -> (shape: Type)
        ensures
            shape@ == TypeView::Primitive(PrimitiveType::UInt(IntWidth::W8)),
            final(cx)@ == old(cx)@,
    {
        Type::Primitive(PrimitiveType::UInt(IntWidth::W8))
    }
}

impl Reflect for u16 {
    fn type_id() -> (id: Option<String>)
        ensures
            id is None,
    {
        None
    }

    fn reflect(cx: &mut TypeContext) -> (shape: Type)
        ensures
            shape@ == TypeView::Primitive(PrimitiveType::UInt(IntWidth::W16)),
            final(cx)@ == old(cx)@,
    {
        Type::Primitive(PrimitiveType::UInt(IntWidth::W16))
    }
}

impl Reflect for u32 {
    fn type_id() -> (id: Option<String>)
        ensures
            id is None,
    {
        None
    }

    fn reflect(cx: &mut TypeContext) -> (shape: Type)
        ensures
            shape@ == TypeView::Primitive(PrimitiveType::UInt(IntWidth::W32)),
            final(cx)@ == old(cx)@,
    {
        Type::Primitive(PrimitiveType::UInt(IntWidth::W32))
    }
}

impl Reflect for u64 {
    fn type_id() -> (id: Option<String>)
        ensures
            id is None,
    {
        None
    }

    fn reflect(cx: &mut TypeContext) -> (shape: Type)
        ensures
            shape@ == TypeView::Primitive(PrimitiveType::UInt(IntWidth::W64)),
            final(cx)@ == old(cx)@,
    {
        Type::Primitive(PrimitiveType::UInt(IntWidth::W64))
    }
}

impl Reflect for u128 {
    fn type_id() -> (id: Option<String>)
        ensures
            id is None,
    {
        None
    }

    fn reflect(cx: &mut TypeContext) -> (shape: Type)
        ensures
            shape@ == TypeView::Primitive(PrimitiveType::UInt(IntWidth::W128)),
            final(cx)@ == old(cx)@,
    {
        Type::Primitive(PrimitiveType::UInt(IntWidth::W128))
    }
}

impl Reflect for bool {
    fn type_id() -> (id: Option<String>)
        ensures
            id is None,
    {
        None
    }

    fn reflect(cx: &mut TypeContext) -> (shape: Type)
        ensures
            shape@ == TypeView::Primitive(PrimitiveType::Bool),
            final(cx)@ == old(cx)@,
    {
        Type::Primitive(PrimitiveType::Bool)
    }
}

impl Reflect for String {
    fn type_id() -> (id: Option<String>)
        ensures
            id is None,
    {
        None
    }

    fn reflect(cx: &mut TypeContext) -> (shape: Type)
        ensures
            shape@ == TypeView::Primitive(PrimitiveType::String),
            final(cx)@ == old(cx)@,
    {
        Type::Primitive(PrimitiveType::String)
    }
}

/// A tuple of shapes mentions only identifiers that `known` holds, where
/// each of the shapes does.
proof fn lemma_tuple_resolved(items: Seq<TypeView>, known: Set<Seq<char>>)
    requires
        forall|i: int| 0 <= i < items.len() ==> resolved_in(#[trigger] items[i], known),
    ensures
        resolved_in(TypeView::Tuple(items), known),
{
    assert forall|id: Seq<char>| TypeView::Tuple(items).mentions(id) implies known.contains(
        id,
    ) by {
        lemma_tuple_mentions(items, id);
        let i = choose|i: int| 0 <= i < items.len() && (#[trigger] items[i]).mentions(id);
        assert(resolved_in(items[i], known));
    }
}

/// A shape that mentions only identifiers known to a registry mentions
/// only identifiers known to its extensions.
proof fn lemma_resolved_later(shape: TypeView, before: TypeContext, after: TypeContext)
    requires
        after.extends(&before),
        resolved_in(shape, before.known()),
    ensures
        resolved_in(shape, after.known()),
{
    after.lemma_extends_known(&before);
}

impl Reflect for () {
    fn type_id() -> (id: Option<String>)
        ensures
            id is None,
    {
        None
    }

    fn reflect(cx: &mut TypeContext) -> (shape: Type)
        ensures
            shape@ == TypeView::Tuple(Seq::empty()),
            final(cx)@ == old(cx)@,
    {
        let items: Vec<Type> = Vec::new();
        proof {
            lemma_tuple_view(items);
            assert(types_view(items@) =~= Seq::empty());
            lemma_tuple_resolved(Seq::empty(), cx.known());
        }
        Type::Tuple(items)
    }
}

impl<A: Reflect> Reflect for (A,) {
    fn type_id() -> (id: Option<String>)
        ensures
            id is None,
    {
        None
    }

    fn reflect(cx: &mut TypeContext) -> (shape: Type)
        ensures
            exists|
                ca: &mut TypeContext, a: Type,
            |
                {
                    &&& *ca == *old(cx)
                    &&& #[trigger] call_ensures(A::reflect, (ca,), a)
                    &&& *final(ca) == *final(cx)
                    &&& shape@ == TypeView::Tuple(seq![a@])
                },
    {
        let a = A::reflect(cx);
        let ghost after_a = *cx;
        let mut items: Vec<Type> = Vec::new();
        items.push(a);
        proof {
            let shapes = seq![a@];
            lemma_resolved_later(shapes[0], after_a, *cx);
            lemma_tuple_view(items);
            assert(types_view(items@) =~= shapes);
            lemma_tuple_resolved(shapes, cx.known());
        }
        Type::Tuple(items)
    }
}

impl<A: Reflect, B: Reflect> Reflect for (A, B) {
    fn type_id() -> (id: Option<String>)
        ensures
            id is None,
    {
        None
    }

    fn reflect(cx: &mut TypeContext) -> (shape: Type)
        ensures
            exists|
                ca: &mut TypeContext, a: Type, cb: &mut TypeContext, b: Type,
            |
                {
                    &&& *ca == *old(cx)
                    &&& #[trigger] call_ensures(A::reflect, (ca,), a)
                    &&& *cb == *final(ca)
                    &&& #[trigger] call_ensures(B::reflect, (cb,), b)
                    &&& *final(cb) == *final(cx)
                    &&& shape@ == TypeView::Tuple(seq![a@, b@])
                },
    {
        let a = A::reflect(cx);
        let ghost after_a = *cx;
        let b = B::reflect(cx);
        let ghost after_b = *cx;
        let mut items: Vec<Type> = Vec::new();
        items.push(a);
        items.push(b);
        proof {
            after_b.lemma_extends_transitive(&after_a, old(cx));
            cx.lemma_extends_transitive(&after_b, &after_a);
            let shapes = seq![a@, b@];
            lemma_resolved_later(shapes[0], after_a, *cx);
            lemma_resolved_later(shapes[1], after_b, *cx);
            lemma_tuple_view(items);
            assert(types_view(items@) =~= shapes);
            lemma_tuple_resolved(shapes, cx.known());
        }
        Type::Tuple(items)
    }
}

impl<A: Reflect, B: Reflect, C: Reflect> Reflect for (A, B, C) {
    fn type_id() -> (id: Option<String>)
        ensures
            id is None,
    {
        None
    }

    fn reflect(cx: &mut TypeContext) -> (shape: Type)
        ensures
            exists|
                ca: &mut TypeContext, a: Type, cb: &mut TypeContext, b: Type, cc: &mut TypeContext,
                c: Type,
            |
                {
                    &&& *ca == *old(cx)
                    &&& #[trigger] call_ensures(A::reflect, (ca,), a)
                    &&& *cb == *final(ca)
                    &&& #[trigger] call_ensures(B::reflect, (cb,), b)
                    &&& *cc == *final(cb)
                    &&& #[trigger] call_ensures(C::reflect, (cc,), c)
                    &&& *final(cc) == *final(cx)
                    &&& shape@ == TypeView::Tuple(seq![a@, b@, c@])
                },
    {
        let a = A::reflect(cx);
        let ghost after_a = *cx;
        let b = B::reflect(cx);
        let ghost after_b = *cx;
        let c = C::reflect(cx);
        let ghost after_c = *cx;
        let mut items: Vec<Type> = Vec::new();
        items.push(a);
        items.push(b);
        items.push(c);
        proof {
            after_b.lemma_extends_transitive(&after_a, old(cx));
            after_c.lemma_extends_transitive(&after_b, old(cx));
            cx.lemma_extends_transitive(&after_c, &after_b);
            cx.lemma_extends_transitive(&after_b, &after_a);
            let shapes = seq![a@, b@, c@];
            lemma_resolved_later(shapes[0], after_a, *cx);
            lemma_resolved_later(shapes[1], after_b, *cx);
            lemma_resolved_later(shapes[2], after_c, *cx);
            lemma_tuple_view(items);
            assert(types_view(items@) =~= shapes);
            lemma_tuple_resolved(shapes, cx.known());
        }
        Type::Tuple(items)
    }
}

impl<A: Reflect, B: Reflect, C: Reflect, D: Reflect> Reflect for (A, B, C, D) {
    fn type_id() -> (id: Option<String>)
        ensures
            id is None,
    {
        None
    }

    fn reflect(cx: &mut TypeContext) -> (shape: Type)
        ensures
            exists|
                ca: &mut TypeContext, a: Type, cb: &mut TypeContext, b: Type, cc: &mut TypeContext,
                c: Type, cd: &mut TypeContext, d: Type,
            |
                {
                    &&& *ca == *old(cx)
                    &&& #[trigger] call_ensures(A::reflect, (ca,), a)
                    &&& *cb == *final(ca)
                    &&& #[trigger] call_ensures(B::reflect, (cb,), b)
                    &&& *cc == *final(cb)
                    &&& #[trigger] call_ensures(C::reflect, (cc,), c)
                    &&& *cd == *final(cc)
                    &&& #[trigger] call_ensures(D::reflect, (cd,), d)
                    &&& *final(cd) == *final(cx)
                    &&& shape@ == TypeView::Tuple(seq![a@, b@, c@, d@])
                },
    {
        let a = A::reflect(cx);
        let ghost after_a = *cx;
        let b = B::reflect(cx);
        let ghost after_b = *cx;
        let c = C::reflect(cx);
        let ghost after_c = *cx;
        let d = D::reflect(cx);
        let ghost after_d = *cx;
        let mut items: Vec<Type> = Vec::new();
        items.push(a);
        items.push(b);
        items.push(c);
        items.push(d);
        proof {
            after_b.lemma_extends_transitive(&after_a, old(cx));
            after_c.lemma_extends_transitive(&after_b, old(cx));
            after_d.lemma_extends_transitive(&after_c, old(cx));
            cx.lemma_extends_transitive(&after_d, &after_c);
            cx.lemma_extends_transitive(&after_c, &after_b);
            cx.lemma_extends_transitive(&after_b, &after_a);
            let shapes = seq![a@, b@, c@, d@];
            lemma_resolved_later(shapes[0], after_a, *cx);
            lemma_resolved_later(shapes[1], after_b, *cx);
            lemma_resolved_later(shapes[2], after_c, *cx);
            lemma_resolved_later(shapes[3], after_d, *cx);
            lemma_tuple_view(items);
            assert(types_view(items@) =~= shapes);
            lemma_tuple_resolved(shapes, cx.known());
        }
        Type::Tuple(items)
    }
}

impl<A: Reflect, B: Reflect, C: Reflect, D: Reflect, E: Reflect> Reflect for (A, B, C, D, E) {
    fn type_id() -> (id: Option<String>)
        ensures
            id is None,
    {
        None
    }

    fn reflect(cx: &mut TypeContext) -> (shape: Type)
        ensures
            exists|
                ca: &mut TypeContext, a: Type, cb: &mut TypeContext, b: Type, cc: &mut TypeContext,
                c: Type, cd: &mut TypeContext, d: Type, ce: &mut TypeContext, e: Type,
            |
                {
                    &&& *ca == *old(cx)
                    &&& #[trigger] call_ensures(A::reflect, (ca,), a)
                    &&& *cb == *final(ca)
                    &&& #[trigger] call_ensures(B::reflect, (cb,), b)
                    &&& *cc == *final(cb)
                    &&& #[trigger] call_ensures(C::reflect, (cc,), c)
                    &&& *cd == *final(cc)
                    &&& #[trigger] call_ensures(D::reflect, (cd,), d)
                    &&& *ce == *final(cd)
                    &&& #[trigger] call_ensures(E::reflect, (ce,), e)
                    &&& *final(ce) == *final(cx)
                    &&& shape@ == TypeView::Tuple(seq![a@, b@, c@, d@, e@])
                },
    {
        let a = A::reflect(cx);
        let ghost after_a = *cx;
        let b = B::reflect(cx);
        let ghost after_b = *cx;
        let c = C::reflect(cx);
        let ghost after_c = *cx;
        let d = D::reflect(cx);
        let ghost after_d = *cx;
        let e = E::reflect(cx);
        let ghost after_e = *cx;
        let mut items: Vec<Type> = Vec::new();
        items.push(a);
        items.push(b);
        items.push(c);
        items.push(d);
        items.push(e);
        proof {
            after_b.lemma_extends_transitive(&after_a, old(cx));
            after_c.lemma_extends_transitive(&after_b, old(cx));
            after_d.lemma_extends_transitive(&after_c, old(cx));
            after_e.lemma_extends_transitive(&after_d, old(cx));
            cx.lemma_extends_transitive(&after_e, &after_d);
            cx.lemma_extends_transitive(&after_d, &after_c);
            cx.lemma_extends_transitive(&after_c, &after_b);
            cx.lemma_extends_transitive(&after_b, &after_a);
            let shapes = seq![a@, b@, c@, d@, e@];
            lemma_resolved_later(shapes[0], after_a, *cx);
            lemma_resolved_later(shapes[1], after_b, *cx);
            lemma_resolved_later(shapes[2], after_c, *cx);
            lemma_resolved_later(shapes[3], after_d, *cx);
            lemma_resolved_later(shapes[4], after_e, *cx);
            lemma_tuple_view(items);
            assert(types_view(items@) =~= shapes);
            lemma_tuple_resolved(shapes, cx.known());
        }
        Type::Tuple(items)
    }
}

impl<
    A: Reflect,
    B: Reflect,
    C: Reflect,
    D: Reflect,
    E: Reflect,
    F: Reflect,
> Reflect for (A, B, C, D, E, F) {
    fn type_id() -> (id: Option<String>)
        ensures
            id is None,
    {
        None
    }

    fn reflect(cx: &mut TypeContext) -> (shape: Type)
        ensures
            exists|
                ca: &mut TypeContext, a: Type, cb: &mut TypeContext, b: Type, cc: &mut TypeContext,
                c: Type, cd: &mut TypeContext, d: Type, ce: &mut TypeContext, e: Type,
                cf: &mut TypeContext, f: Type,
            |
                {
                    &&& *ca == *old(cx)
                    &&& #[trigger] call_ensures(A::reflect, (ca,), a)
                    &&& *cb == *final(ca)
                    &&& #[trigger] call_ensures(B::reflect, (cb,), b)
                    &&& *cc == *final(cb)
                    &&& #[trigger] call_ensures(C::reflect, (cc,), c)
                    &&& *cd == *final(cc)
                    &&& #[trigger] call_ensures(D::reflect, (cd,), d)
                    &&& *ce == *final(cd)
                    &&& #[trigger] call_ensures(E::reflect, (ce,), e)
                    &&& *cf == *final(ce)
                    &&& #[trigger] call_ensures(F::reflect, (cf,), f)
                    &&& *final(cf) == *final(cx)
                    &&& shape@ == TypeView::Tuple(seq![a@, b@, c@, d@, e@, f@])
                },
    {
        let a = A::reflect(cx);
        let ghost after_a = *cx;
        let b = B::reflect(cx);
        let ghost after_b = *cx;
        let c = C::reflect(cx);
        let ghost after_c = *cx;
        let d = D::reflect(cx);
        let ghost after_d = *cx;
        let e = E::reflect(cx);
        let ghost after_e = *cx;
        let f = F::reflect(cx);
        let ghost after_f = *cx;
        let mut items: Vec<Type> = Vec::new();
        items.push(a);
        items.push(b);
        items.push(c);
        items.push(d);
        items.push(e);
        items.push(f);
        proof {
            after_b.lemma_extends_transitive(&after_a, old(cx));
            after_c.lemma_extends_transitive(&after_b, old(cx));
            after_d.lemma_extends_transitive(&after_c, old(cx));
            after_e.lemma_extends_transitive(&after_d, old(cx));
            after_f.lemma_extends_transitive(&after_e, old(cx));
            cx.lemma_extends_transitive(&after_f, &after_e);
            cx.lemma_extends_transitive(&after_e, &after_d);
            cx.lemma_extends_transitive(&after_d, &after_c);
            cx.lemma_extends_transitive(&after_c, &after_b);
            cx.lemma_extends_transitive(&after_b, &after_a);
            let shapes = seq![a@, b@, c@, d@, e@, f@];
            lemma_resolved_later(shapes[0], after_a, *cx);
            lemma_resolved_later(shapes[1], after_b, *cx);
            lemma_resolved_later(shapes[2], after_c, *cx);
            lemma_resolved_later(shapes[3], after_d, *cx);
            lemma_resolved_later(shapes[4], after_e, *cx);
            lemma_resolved_later(shapes[5], after_f, *cx);
            lemma_tuple_view(items);
            assert(types_view(items@) =~= shapes);
            lemma_tuple_resolved(shapes, cx.known());
        }
        Type::Tuple(items)
    }
}

impl<
    A: Reflect,
    B: Reflect,
    C: Reflect,
    D: Reflect,
    E: Reflect,
    F: Reflect,
    G: Reflect,
> Reflect for (A, B, C, D, E, F, G) {
    fn type_id() -> (id: Option<String>)
        ensures
            id is None,
    {
        None
    }

    fn reflect(cx: &mut TypeContext) -> (shape: Type)
        ensures
            exists|
                ca: &mut TypeContext, a: Type, cb: &mut TypeContext, b: Type, cc: &mut TypeContext,
                c: Type, cd: &mut TypeContext, d: Type, ce: &mut TypeContext, e: Type,
                cf: &mut TypeContext, f: Type, cg: &mut TypeContext, g: Type,
            |
                {
                    &&& *ca == *old(cx)
                    &&& #[trigger] call_ensures(A::reflect, (ca,), a)
                    &&& *cb == *final(ca)
                    &&& #[trigger] call_ensures(B::reflect, (cb,), b)
                    &&& *cc == *final(cb)
                    &&& #[trigger] call_ensures(C::reflect, (cc,), c)
                    &&& *cd == *final(cc)
                    &&& #[trigger] call_ensures(D::reflect, (cd,), d)
                    &&& *ce == *final(cd)
                    &&& #[trigger] call_ensures(E::reflect, (ce,), e)
                    &&& *cf == *final(ce)
                    &&& #[trigger] call_ensures(F::reflect, (cf,), f)
                    &&& *cg == *final(cf)
                    &&& #[trigger] call_ensures(G::reflect, (cg,), g)
                    &&& *final(cg) == *final(cx)
                    &&& shape@ == TypeView::Tuple(seq![a@, b@, c@, d@, e@, f@, g@])
                },
    {
        let a = A::reflect(cx);
        let ghost after_a = *cx;
        let b = B::reflect(cx);
        let ghost after_b = *cx;
        let c = C::reflect(cx);
        let ghost after_c = *cx;
        let d = D::reflect(cx);
        let ghost after_d = *cx;
        let e = E::reflect(cx);
        let ghost after_e = *cx;
        let f = F::reflect(cx);
        let ghost after_f = *cx;
        let g = G::reflect(cx);
        let ghost after_g = *cx;
        let mut items: Vec<Type> = Vec::new();
        items.push(a);
        items.push(b);
        items.push(c);
        items.push(d);
        items.push(e);
        items.push(f);
        items.push(g);
        proof {
            after_b.lemma_extends_transitive(&after_a, old(cx));
            after_c.lemma_extends_transitive(&after_b, old(cx));
            after_d.lemma_extends_transitive(&after_c, old(cx));
            after_e.lemma_extends_transitive(&after_d, old(cx));
            after_f.lemma_extends_transitive(&after_e, old(cx));
            after_g.lemma_extends_transitive(&after_f, old(cx));
            cx.lemma_extends_transitive(&after_g, &after_f);
            cx.lemma_extends_transitive(&after_f, &after_e);
            cx.lemma_extends_transitive(&after_e, &after_d);
            cx.lemma_extends_transitive(&after_d, &after_c);
            cx.lemma_extends_transitive(&after_c, &after_b);
            cx.lemma_extends_transitive(&after_b, &after_a);
            let shapes = seq![a@, b@, c@, d@, e@, f@, g@];
            lemma_resolved_later(shapes[0], after_a, *cx);
            lemma_resolved_later(shapes[1], after_b, *cx);
            lemma_resolved_later(shapes[2], after_c, *cx);
            lemma_resolved_later(shapes[3], after_d, *cx);
            lemma_resolved_later(shapes[4], after_e, *cx);
            lemma_resolved_later(shapes[5], after_f, *cx);
            lemma_resolved_later(shapes[6], after_g, *cx);
            lemma_tuple_view(items);
            assert(types_view(items@) =~= shapes);
            lemma_tuple_resolved(shapes, cx.known());
        }
        Type::Tuple(items)
    }
}

impl<
    A: Reflect,
    B: Reflect,
    C: Reflect,
    D: Reflect,
    E: Reflect,
    F: Reflect,
    G: Reflect,
    H: Reflect,
> Reflect for (A, B, C, D, E, F, G, H) {
    fn type_id() -> (id: Option<String>)
        ensures
            id is None,
    {
        None
    }

    fn reflect(cx: &mut TypeContext) -> (shape: Type)
        ensures
            exists|
                ca: &mut TypeContext, a: Type, cb: &mut TypeContext, b: Type, cc: &mut TypeContext,
                c: Type, cd: &mut TypeContext, d: Type, ce: &mut TypeContext, e: Type,
                cf: &mut TypeContext, f: Type, cg: &mut TypeContext, g: Type, ch: &mut TypeContext,
                h: Type,
            |
                {
                    &&& *ca == *old(cx)
                    &&& #[trigger] call_ensures(A::reflect, (ca,), a)
                    &&& *cb == *final(ca)
                    &&& #[trigger] call_ensures(B::reflect, (cb,), b)
                    &&& *cc == *final(cb)
                    &&& #[trigger] call_ensures(C::reflect, (cc,), c)
                    &&& *cd == *final(cc)
                    &&& #[trigger] call_ensures(D::reflect, (cd,), d)
                    &&& *ce == *final(cd)
                    &&& #[trigger] call_ensures(E::reflect, (ce,), e)
                    &&& *cf == *final(ce)
                    &&& #[trigger] call_ensures(F::reflect, (cf,), f)
                    &&& *cg == *final(cf)
                    &&& #[trigger] call_ensures(G::reflect, (cg,), g)
                    &&& *ch == *final(cg)
                    &&& #[trigger] call_ensures(H::reflect, (ch,), h)
                    &&& *final(ch) == *final(cx)
                    &&& shape@ == TypeView::Tuple(seq![a@, b@, c@, d@, e@, f@, g@, h@])
                },
    {
        let a = A::reflect(cx);
        let ghost after_a = *cx;
        let b = B::reflect(cx);
        let ghost after_b = *cx;
        let c = C::reflect(cx);
        let ghost after_c = *cx;
        let d = D::reflect(cx);
        let ghost after_d = *cx;
        let e = E::reflect(cx);
        let ghost after_e = *cx;
        let f = F::reflect(cx);
        let ghost after_f = *cx;
        let g = G::reflect(cx);
        let ghost after_g = *cx;
        let h = H::reflect(cx);
        let ghost after_h = *cx;
        let mut items: Vec<Type> = Vec::new();
        items.push(a);
        items.push(b);
        items.push(c);
        items.push(d);
        items.push(e);
        items.push(f);
        items.push(g);
        items.push(h);
        proof {
            after_b.lemma_extends_transitive(&after_a, old(cx));
            after_c.lemma_extends_transitive(&after_b, old(cx));
            after_d.lemma_extends_transitive(&after_c, old(cx));
            after_e.lemma_extends_transitive(&after_d, old(cx));
            after_f.lemma_extends_transitive(&after_e, old(cx));
            after_g.lemma_extends_transitive(&after_f, old(cx));
            after_h.lemma_extends_transitive(&after_g, old(cx));
            cx.lemma_extends_transitive(&after_h, &after_g);
            cx.lemma_extends_transitive(&after_g, &after_f);
            cx.lemma_extends_transitive(&after_f, &after_e);
            cx.lemma_extends_transitive(&after_e, &after_d);
            cx.lemma_extends_transitive(&after_d, &after_c);
            cx.lemma_extends_transitive(&after_c, &after_b);
            cx.lemma_extends_transitive(&after_b, &after_a);
            let shapes = seq![a@, b@, c@, d@, e@, f@, g@, h@];
            lemma_resolved_later(shapes[0], after_a, *cx);
            lemma_resolved_later(shapes[1], after_b, *cx);
            lemma_resolved_later(shapes[2], after_c, *cx);
            lemma_resolved_later(shapes[3], after_d, *cx);
            lemma_resolved_later(shapes[4], after_e, *cx);
            lemma_resolved_later(shapes[5], after_f, *cx);
            lemma_resolved_later(shapes[6], after_g, *cx);
            lemma_resolved_later(shapes[7], after_h, *cx);
            lemma_tuple_view(items);
            assert(types_view(items@) =~= shapes);
            lemma_tuple_resolved(shapes, cx.known());
        }
        Type::Tuple(items)
    }
}

impl<
    A: Reflect,
    B: Reflect,
    C: Reflect,
    D: Reflect,
    E: Reflect,
    F: Reflect,
    G: Reflect,
    H: Reflect,
    I: Reflect,
> Reflect for (A, B, C, D, E, F, G, H, I) {
    fn type_id() -> (id: Option<String>)
        ensures
            id is None,
    {
        None
    }

    fn reflect(cx: &mut TypeContext) -> (shape: Type)
        ensures
            exists|
                ca: &mut TypeContext, a: Type, cb: &mut TypeContext, b: Type, cc: &mut TypeContext,
                c: Type, cd: &mut TypeContext, d: Type, ce: &mut TypeContext, e: Type,
                cf: &mut TypeContext, f: Type, cg: &mut TypeContext, g: Type, ch: &mut TypeContext,
                h: Type, ci: &mut TypeContext, i: Type,
            |
                {
                    &&& *ca == *old(cx)
                    &&& #[trigger] call_ensures(A::reflect, (ca,), a)
                    &&& *cb == *final(ca)
                    &&& #[trigger] call_ensures(B::reflect, (cb,), b)
                    &&& *cc == *final(cb)
                    &&& #[trigger] call_ensures(C::reflect, (cc,), c)
                    &&& *cd == *final(cc)
                    &&& #[trigger] call_ensures(D::reflect, (cd,), d)
                    &&& *ce == *final(cd)
                    &&& #[trigger] call_ensures(E::reflect, (ce,), e)
                    &&& *cf == *final(ce)
                    &&& #[trigger] call_ensures(F::reflect, (cf,), f)
                    &&& *cg == *final(cf)
                    &&& #[trigger] call_ensures(G::reflect, (cg,), g)
                    &&& *ch == *final(cg)
                    &&& #[trigger] call_ensures(H::reflect, (ch,), h)
                    &&& *ci == *final(ch)
                    &&& #[trigger] call_ensures(I::reflect, (ci,), i)
                    &&& *final(ci) == *final(cx)
                    &&& shape@ == TypeView::Tuple(seq![a@, b@, c@, d@, e@, f@, g@, h@, i@])
                },
    {
        let a = A::reflect(cx);
        let ghost after_a = *cx;
        let b = B::reflect(cx);
        let ghost after_b = *cx;
        let c = C::reflect(cx);
        let ghost after_c = *cx;
        let d = D::reflect(cx);
        let ghost after_d = *cx;
        let e = E::reflect(cx);
        let ghost after_e = *cx;
        let f = F::reflect(cx);
        let ghost after_f = *cx;
        let g = G::reflect(cx);
        let ghost after_g = *cx;
        let h = H::reflect(cx);
        let ghost after_h = *cx;
        let i = I::reflect(cx);
        let ghost after_i = *cx;
        let mut items: Vec<Type> = Vec::new();
        items.push(a);
        items.push(b);
        items.push(c);
        items.push(d);
        items.push(e);
        items.push(f);
        items.push(g);
        items.push(h);
        items.push(i);
        proof {
            after_b.lemma_extends_transitive(&after_a, old(cx));
            after_c.lemma_extends_transitive(&after_b, old(cx));
            after_d.lemma_extends_transitive(&after_c, old(cx));
            after_e.lemma_extends_transitive(&after_d, old(cx));
            after_f.lemma_extends_transitive(&after_e, old(cx));
            after_g.lemma_extends_transitive(&after_f, old(cx));
            after_h.lemma_extends_transitive(&after_g, old(cx));
            after_i.lemma_extends_transitive(&after_h, old(cx));
            cx.lemma_extends_transitive(&after_i, &after_h);
            cx.lemma_extends_transitive(&after_h, &after_g);
            cx.lemma_extends_transitive(&after_g, &after_f);
            cx.lemma_extends_transitive(&after_f, &after_e);
            cx.lemma_extends_transitive(&after_e, &after_d);
            cx.lemma_extends_transitive(&after_d, &after_c);
            cx.lemma_extends_transitive(&after_c, &after_b);
            cx.lemma_extends_transitive(&after_b, &after_a);
            let shapes = seq![a@, b@, c@, d@, e@, f@, g@, h@, i@];
            lemma_resolved_later(shapes[0], after_a, *cx);
            lemma_resolved_later(shapes[1], after_b, *cx);
            lemma_resolved_later(shapes[2], after_c, *cx);
            lemma_resolved_later(shapes[3], after_d, *cx);
            lemma_resolved_later(shapes[4], after_e, *cx);
            lemma_resolved_later(shapes[5], after_f, *cx);
            lemma_resolved_later(shapes[6], after_g, *cx);
            lemma_resolved_later(shapes[7], after_h, *cx);
            lemma_resolved_later(shapes[8], after_i, *cx);
            lemma_tuple_view(items);
            assert(types_view(items@) =~= shapes);
            lemma_tuple_resolved(shapes, cx.known());
        }
        Type::Tuple(items)
    }
}

impl<
    A: Reflect,
    B: Reflect,
    C: Reflect,
    D: Reflect,
    E: Reflect,
    F: Reflect,
    G: Reflect,
    H: Reflect,
    I: Reflect,
    J: Reflect,
> Reflect for (A, B, C, D, E, F, G, H, I, J) {
    fn type_id() -> (id: Option<String>)
        ensures
            id is None,
    {
        None
    }

    fn reflect(cx: &mut TypeContext) -> (shape: Type)
        ensures
            exists|
                ca: &mut TypeContext, a: Type, cb: &mut TypeContext, b: Type, cc: &mut TypeContext,
                c: Type, cd: &mut TypeContext, d: Type, ce: &mut TypeContext, e: Type,
                cf: &mut TypeContext, f: Type, cg: &mut TypeContext, g: Type, ch: &mut TypeContext,
                h: Type, ci: &mut TypeContext, i: Type, cj: &mut TypeContext, j: Type,
            |
                {
                    &&& *ca == *old(cx)
                    &&& #[trigger] call_ensures(A::reflect, (ca,), a)
                    &&& *cb == *final(ca)
                    &&& #[trigger] call_ensures(B::reflect, (cb,), b)
                    &&& *cc == *final(cb)
                    &&& #[trigger] call_ensures(C::reflect, (cc,), c)
                    &&& *cd == *final(cc)
                    &&& #[trigger] call_ensures(D::reflect, (cd,), d)
                    &&& *ce == *final(cd)
                    &&& #[trigger] call_ensures(E::reflect, (ce,), e)
                    &&& *cf == *final(ce)
                    &&& #[trigger] call_ensures(F::reflect, (cf,), f)
                    &&& *cg == *final(cf)
                    &&& #[trigger] call_ensures(G::reflect, (cg,), g)
                    &&& *ch == *final(cg)
                    &&& #[trigger] call_ensures(H::reflect, (ch,), h)
                    &&& *ci == *final(ch)
                    &&& #[trigger] call_ensures(I::reflect, (ci,), i)
                    &&& *cj == *final(ci)
                    &&& #[trigger] call_ensures(J::reflect, (cj,), j)
                    &&& *final(cj) == *final(cx)
                    &&& shape@ == TypeView::Tuple(seq![a@, b@, c@, d@, e@, f@, g@, h@, i@, j@])
                },
    {
        let a = A::reflect(cx);
        let ghost after_a = *cx;
        let b = B::reflect(cx);
        let ghost after_b = *cx;
        let c = C::reflect(cx);
        let ghost after_c = *cx;
        let d = D::reflect(cx);
        let ghost after_d = *cx;
        let e = E::reflect(cx);
        let ghost after_e = *cx;
        let f = F::reflect(cx);
        let ghost after_f = *cx;
        let g = G::reflect(cx);
        let ghost after_g = *cx;
        let h = H::reflect(cx);
        let ghost after_h = *cx;
        let i = I::reflect(cx);
        let ghost after_i = *cx;
        let j = J::reflect(cx);
        let ghost after_j = *cx;
        let mut items: Vec<Type> = Vec::new();
        items.push(a);
        items.push(b);
        items.push(c);
        items.push(d);
        items.push(e);
        items.push(f);
        items.push(g);
        items.push(h);
        items.push(i);
        items.push(j);
        proof {
            after_b.lemma_extends_transitive(&after_a, old(cx));
            after_c.lemma_extends_transitive(&after_b, old(cx));
            after_d.lemma_extends_transitive(&after_c, old(cx));
            after_e.lemma_extends_transitive(&after_d, old(cx));
            after_f.lemma_extends_transitive(&after_e, old(cx));
            after_g.lemma_extends_transitive(&after_f, old(cx));
            after_h.lemma_extends_transitive(&after_g, old(cx));
            after_i.lemma_extends_transitive(&after_h, old(cx));
            after_j.lemma_extends_transitive(&after_i, old(cx));
            cx.lemma_extends_transitive(&after_j, &after_i);
            cx.lemma_extends_transitive(&after_i, &after_h);
            cx.lemma_extends_transitive(&after_h, &after_g);
            cx.lemma_extends_transitive(&after_g, &after_f);
            cx.lemma_extends_transitive(&after_f, &after_e);
            cx.lemma_extends_transitive(&after_e, &after_d);
            cx.lemma_extends_transitive(&after_d, &after_c);
            cx.lemma_extends_transitive(&after_c, &after_b);
            cx.lemma_extends_transitive(&after_b, &after_a);
            let shapes = seq![a@, b@, c@, d@, e@, f@, g@, h@, i@, j@];
            lemma_resolved_later(shapes[0], after_a, *cx);
            lemma_resolved_later(shapes[1], after_b, *cx);
            lemma_resolved_later(shapes[2], after_c, *cx);
            lemma_resolved_later(shapes[3], after_d, *cx);
            lemma_resolved_later(shapes[4], after_e, *cx);
            lemma_resolved_later(shapes[5], after_f, *cx);
            lemma_resolved_later(shapes[6], after_g, *cx);
            lemma_resolved_later(shapes[7], after_h, *cx);
            lemma_resolved_later(shapes[8], after_i, *cx);
            lemma_resolved_later(shapes[9], after_j, *cx);
            lemma_tuple_view(items);
            assert(types_view(items@) =~= shapes);
            lemma_tuple_resolved(shapes, cx.known());
        }
        Type::Tuple(items)
    }
}

impl<
    A: Reflect,
    B: Reflect,
    C: Reflect,
    D: Reflect,
    E: Reflect,
    F: Reflect,
    G: Reflect,
    H: Reflect,
    I: Reflect,
    J: Reflect,
    K: Reflect,
> Reflect for (A, B, C, D, E, F, G, H, I, J, K) {
    fn type_id() -> (id: Option<String>)
        ensures
            id is None,
    {
        None
    }

    fn reflect(cx: &mut TypeContext) -> (shape: Type)
        ensures
            exists|
                ca: &mut TypeContext, a: Type, cb: &mut TypeContext, b: Type, cc: &mut TypeContext,
                c: Type, cd: &mut TypeContext, d: Type, ce: &mut TypeContext, e: Type,
                cf: &mut TypeContext, f: Type, cg: &mut TypeContext, g: Type, ch: &mut TypeContext,
                h: Type, ci: &mut TypeContext, i: Type, cj: &mut TypeContext, j: Type,
                ck: &mut TypeContext, k: Type,
            |
                {
                    &&& *ca == *old(cx)
                    &&& #[trigger] call_ensures(A::reflect, (ca,), a)
                    &&& *cb == *final(ca)
                    &&& #[trigger] call_ensures(B::reflect, (cb,), b)
                    &&& *cc == *final(cb)
                    &&& #[trigger] call_ensures(C::reflect, (cc,), c)
                    &&& *cd == *final(cc)
                    &&& #[trigger] call_ensures(D::reflect, (cd,), d)
                    &&& *ce == *final(cd)
                    &&& #[trigger] call_ensures(E::reflect, (ce,), e)
                    &&& *cf == *final(ce)
                    &&& #[trigger] call_ensures(F::reflect, (cf,), f)
                    &&& *cg == *final(cf)
                    &&& #[trigger] call_ensures(G::reflect, (cg,), g)
                    &&& *ch == *final(cg)
                    &&& #[trigger] call_ensures(H::reflect, (ch,), h)
                    &&& *ci == *final(ch)
                    &&& #[trigger] call_ensures(I::reflect, (ci,), i)
                    &&& *cj == *final(ci)
                    &&& #[trigger] call_ensures(J::reflect, (cj,), j)
                    &&& *ck == *final(cj)
                    &&& #[trigger] call_ensures(K::reflect, (ck,), k)
                    &&& *final(ck) == *final(cx)
                    &&& shape@ == TypeView::Tuple(seq![a@, b@, c@, d@, e@, f@, g@, h@, i@, j@, k@])
                },
    {
        let a = A::reflect(cx);
        let ghost after_a = *cx;
        let b = B::reflect(cx);
        let ghost after_b = *cx;
        let c = C::reflect(cx);
        let ghost after_c = *cx;
        let d = D::reflect(cx);
        let ghost after_d = *cx;
        let e = E::reflect(cx);
        let ghost after_e = *cx;
        let f = F::reflect(cx);
        let ghost after_f = *cx;
        let g = G::reflect(cx);
        let ghost after_g = *cx;
        let h = H::reflect(cx);
        let ghost after_h = *cx;
        let i = I::reflect(cx);
        let ghost after_i = *cx;
        let j = J::reflect(cx);
        let ghost after_j = *cx;
        let k = K::reflect(cx);
        let ghost after_k = *cx;
        let mut items: Vec<Type> = Vec::new();
        items.push(a);
        items.push(b);
        items.push(c);
        items.push(d);
        items.push(e);
        items.push(f);
        items.push(g);
        items.push(h);
        items.push(i);
        items.push(j);
        items.push(k);
        proof {
            after_b.lemma_extends_transitive(&after_a, old(cx));
            after_c.lemma_extends_transitive(&after_b, old(cx));
            after_d.lemma_extends_transitive(&after_c, old(cx));
            after_e.lemma_extends_transitive(&after_d, old(cx));
            after_f.lemma_extends_transitive(&after_e, old(cx));
            after_g.lemma_extends_transitive(&after_f, old(cx));
            after_h.lemma_extends_transitive(&after_g, old(cx));
            after_i.lemma_extends_transitive(&after_h, old(cx));
            after_j.lemma_extends_transitive(&after_i, old(cx));
            after_k.lemma_extends_transitive(&after_j, old(cx));
            cx.lemma_extends_transitive(&after_k, &after_j);
            cx.lemma_extends_transitive(&after_j, &after_i);
            cx.lemma_extends_transitive(&after_i, &after_h);
            cx.lemma_extends_transitive(&after_h, &after_g);
            cx.lemma_extends_transitive(&after_g, &after_f);
            cx.lemma_extends_transitive(&after_f, &after_e);
            cx.lemma_extends_transitive(&after_e, &after_d);
            cx.lemma_extends_transitive(&after_d, &after_c);
            cx.lemma_extends_transitive(&after_c, &after_b);
            cx.lemma_extends_transitive(&after_b, &after_a);
            let shapes = seq![a@, b@, c@, d@, e@, f@, g@, h@, i@, j@, k@];
            lemma_resolved_later(shapes[0], after_a, *cx);
            lemma_resolved_later(shapes[1], after_b, *cx);
            lemma_resolved_later(shapes[2], after_c, *cx);
            lemma_resolved_later(shapes[3], after_d, *cx);
            lemma_resolved_later(shapes[4], after_e, *cx);
            lemma_resolved_later(shapes[5], after_f, *cx);
            lemma_resolved_later(shapes[6], after_g, *cx);
            lemma_resolved_later(shapes[7], after_h, *cx);
            lemma_resolved_later(shapes[8], after_i, *cx);
            lemma_resolved_later(shapes[9], after_j, *cx);
            lemma_resolved_later(shapes[10], after_k, *cx);
            lemma_tuple_view(items);
            assert(types_view(items@) =~= shapes);
            lemma_tuple_resolved(shapes, cx.known());
        }
        Type::Tuple(items)
    }
}

impl<
    A: Reflect,
    B: Reflect,
    C: Reflect,
    D: Reflect,
    E: Reflect,
    F: Reflect,
    G: Reflect,
    H: Reflect,
    I: Reflect,
    J: Reflect,
    K: Reflect,
    L: Reflect,
> Reflect for (A, B, C, D, E, F, G, H, I, J, K, L) {
    fn type_id() -> (id: Option<String>)
        ensures
            id is None,
    {
        None
    }

    fn reflect(cx: &mut TypeContext) -> (shape: Type)
        ensures
            exists|
                ca: &mut TypeContext, a: Type, cb: &mut TypeContext, b: Type, cc: &mut TypeContext,
                c: Type, cd: &mut TypeContext, d: Type, ce: &mut TypeContext, e: Type,
                cf: &mut TypeContext, f: Type, cg: &mut TypeContext, g: Type, ch: &mut TypeContext,
                h: Type, ci: &mut TypeContext, i: Type, cj: &mut TypeContext, j: Type,
                ck: &mut TypeContext, k: Type, cl: &mut TypeContext, l: Type,
            |
                {
                    &&& *ca == *old(cx)
                    &&& #[trigger] call_ensures(A::reflect, (ca,), a)
                    &&& *cb == *final(ca)
                    &&& #[trigger] call_ensures(B::reflect, (cb,), b)
                    &&& *cc == *final(cb)
                    &&& #[trigger] call_ensures(C::reflect, (cc,), c)
                    &&& *cd == *final(cc)
                    &&& #[trigger] call_ensures(D::reflect, (cd,), d)
                    &&& *ce == *final(cd)
                    &&& #[trigger] call_ensures(E::reflect, (ce,), e)
                    &&& *cf == *final(ce)
                    &&& #[trigger] call_ensures(F::reflect, (cf,), f)
                    &&& *cg == *final(cf)
                    &&& #[trigger] call_ensures(G::reflect, (cg,), g)
                    &&& *ch == *final(cg)
                    &&& #[trigger] call_ensures(H::reflect, (ch,), h)
                    &&& *ci == *final(ch)
                    &&& #[trigger] call_ensures(I::reflect, (ci,), i)
                    &&& *cj == *final(ci)
                    &&& #[trigger] call_ensures(J::reflect, (cj,), j)
                    &&& *ck == *final(cj)
                    &&& #[trigger] call_ensures(K::reflect, (ck,), k)
                    &&& *cl == *final(ck)
                    &&& #[trigger] call_ensures(L::reflect, (cl,), l)
                    &&& *final(cl) == *final(cx)
                    &&& shape@ == TypeView::Tuple(
                        seq![
                            a@, b@, c@, d@, e@, f@, g@, h@, i@, j@, k@, l@,
                        ],
                    )
                },
    {
        let a = A::reflect(cx);
        let ghost after_a = *cx;
        let b = B::reflect(cx);
        let ghost after_b = *cx;
        let c = C::reflect(cx);
        let ghost after_c = *cx;
        let d = D::reflect(cx);
        let ghost after_d = *cx;
        let e = E::reflect(cx);
        let ghost after_e = *cx;
        let f = F::reflect(cx);
        let ghost after_f = *cx;
        let g = G::reflect(cx);
        let ghost after_g = *cx;
        let h = H::reflect(cx);
        let ghost after_h = *cx;
        let i = I::reflect(cx);
        let ghost after_i = *cx;
        let j = J::reflect(cx);
        let ghost after_j = *cx;
        let k = K::reflect(cx);
        let ghost after_k = *cx;
        let l = L::reflect(cx);
        let ghost after_l = *cx;
        let mut items: Vec<Type> = Vec::new();
        items.push(a);
        items.push(b);
        items.push(c);
        items.push(d);
        items.push(e);
        items.push(f);
        items.push(g);
        items.push(h);
        items.push(i);
        items.push(j);
        items.push(k);
        items.push(l);
        proof {
            after_b.lemma_extends_transitive(&after_a, old(cx));
            after_c.lemma_extends_transitive(&after_b, old(cx));
            after_d.lemma_extends_transitive(&after_c, old(cx));
            after_e.lemma_extends_transitive(&after_d, old(cx));
            after_f.lemma_extends_transitive(&after_e, old(cx));
            after_g.lemma_extends_transitive(&after_f, old(cx));
            after_h.lemma_extends_transitive(&after_g, old(cx));
            after_i.lemma_extends_transitive(&after_h, old(cx));
            after_j.lemma_extends_transitive(&after_i, old(cx));
            after_k.lemma_extends_transitive(&after_j, old(cx));
            after_l.lemma_extends_transitive(&after_k, old(cx));
            cx.lemma_extends_transitive(&after_l, &after_k);
            cx.lemma_extends_transitive(&after_k, &after_j);
            cx.lemma_extends_transitive(&after_j, &after_i);
            cx.lemma_extends_transitive(&after_i, &after_h);
            cx.lemma_extends_transitive(&after_h, &after_g);
            cx.lemma_extends_transitive(&after_g, &after_f);
            cx.lemma_extends_transitive(&after_f, &after_e);
            cx.lemma_extends_transitive(&after_e, &after_d);
            cx.lemma_extends_transitive(&after_d, &after_c);
            cx.lemma_extends_transitive(&after_c, &after_b);
            cx.lemma_extends_transitive(&after_b, &after_a);
            let shapes = seq![a@, b@, c@, d@, e@, f@, g@, h@, i@, j@, k@, l@];
            lemma_resolved_later(shapes[0], after_a, *cx);
            lemma_resolved_later(shapes[1], after_b, *cx);
            lemma_resolved_later(shapes[2], after_c, *cx);
            lemma_resolved_later(shapes[3], after_d, *cx);
            lemma_resolved_later(shapes[4], after_e, *cx);
            lemma_resolved_later(shapes[5], after_f, *cx);
            lemma_resolved_later(shapes[6], after_g, *cx);
            lemma_resolved_later(shapes[7], after_h, *cx);
            lemma_resolved_later(shapes[8], after_i, *cx);
            lemma_resolved_later(shapes[9], after_j, *cx);
            lemma_resolved_later(shapes[10], after_k, *cx);
            lemma_resolved_later(shapes[11], after_l, *cx);
            lemma_tuple_view(items);
            assert(types_view(items@) =~= shapes);
            lemma_tuple_resolved(shapes, cx.known());
        }
        Type::Tuple(items)
    }
}

impl<T: Reflect> Reflect for Option<T> {
    fn type_id() -> (id: Option<String>)
        ensures
            id is None,
    {
        None
    }

    fn reflect(cx: &mut TypeContext) -> (shape: Type)
        ensures
            exists|c: &mut TypeContext, inner: Type|
                {
                    &&& *c == *old(cx)
                    &&& #[trigger] call_ensures(T::reflect, (c,), inner)
                    &&& *final(c) == *final(cx)
                    &&& shape@ == TypeView::Option(Box::new(inner@))
                },
    {
        Type::Option(Box::new(T::reflect(cx)))
    }
}

impl<T: Reflect> Reflect for Vec<T> {
    fn type_id() -> (id: Option<String>)
        ensures
            id is None,
    {
        None
    }

    fn reflect(cx: &mut TypeContext) -> (shape: Type)
        ensures
            exists|c: &mut TypeContext, inner: Type|
                {
                    &&& *c == *old(cx)
                    &&& #[trigger] call_ensures(T::reflect, (c,), inner)
                    &&& *final(c) == *final(cx)
                    &&& shape@ == TypeView::Array(Box::new(inner@))
                },
    {
        Type::Array(Box::new(T::reflect(cx)))
    }
}

/// A UTF-8 path slice travels as a string. It keeps an identifier of its
/// own, under which nothing is registered.
impl Reflect for camino::Utf8Path {
    fn type_id() -> (id: Option<String>)
        ensures
            id is Some && id->0@ == "camino::Utf8Path"@,
    {
        Some("camino::Utf8Path".to_owned())
    }

    fn reflect(cx: &mut TypeContext) -> (shape: Type)
        ensures
            shape@ == TypeView::Primitive(PrimitiveType::String),
            final(cx)@ == old(cx)@,
    {
        String::reflect(cx)
    }
}

/// An owned UTF-8 path travels as a string. It keeps an identifier of its
/// own, under which nothing is registered.
impl Reflect for camino::Utf8PathBuf {
    fn type_id() -> (id: Option<String>)
        ensures
            id is Some && id->0@ == "camino::Utf8PathBuf"@,
    {
        Some("camino::Utf8PathBuf".to_owned())
    }

    fn reflect(cx: &mut TypeContext) -> (shape: Type)
        ensures
            shape@ == TypeView::Primitive(PrimitiveType::String),
            final(cx)@ == old(cx)@,
    {
        String::reflect(cx)
    }
}

} // verus!
