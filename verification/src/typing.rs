use vstd::prelude::*;

use crate::value::{Value, ValueType, ValueView, view_of, views_of, lemma_views_of};

verus! {

/// A type descriptor value: a reified `Type` tag, or a list of type
/// descriptors (the encoding of list types), always with `spread` unset.
pub open spec fn is_type_shape(v: ValueView) -> bool
    decreases v,
{
    match v {
        ValueView::Type(_) => true,
        ValueView::List { items, spread } => !spread && all_type_shapes(items),
        _ => false,
    }
}

pub open spec fn all_type_shapes(s: Seq<ValueView>) -> bool
    decreases s,
{
    s.len() == 0 || (is_type_shape(s[0]) && all_type_shapes(s.drop_first()))
}

/// The per-element type descriptors of a list's contents.
pub open spec fn types_of(s: Seq<ValueView>) -> Seq<ValueView>
    decreases s,
{
    if s.len() == 0 {
        Seq::empty()
    } else {
        seq![spec_value_type(s[0])] + types_of(s.drop_first())
    }
}

/// The type descriptor of a value. Scalars and callables map to their tag;
/// a list maps to the list of its element types, collapsed to a single
/// entry when every element shares one type, and to `[Any]` when empty.
pub open spec fn spec_value_type(v: ValueView) -> ValueView
    decreases v,
{
    match v {
        ValueView::Unit => ValueView::Type(ValueType::Unit),
        ValueView::Int(_) => ValueView::Type(ValueType::Integer),
        ValueView::Float(_) => ValueView::Type(ValueType::Float),
        ValueView::Char(_) => ValueView::Type(ValueType::Char),
        ValueView::Bool(_) => ValueView::Type(ValueType::Boolean),
        ValueView::Func(_) => ValueView::Type(ValueType::Function),
        ValueView::Closure { .. } => ValueView::Type(ValueType::Function),
        ValueView::System(_) => ValueView::Type(ValueType::Function),
        ValueView::Type(_) => ValueView::Type(ValueType::Type),
        ValueView::List { items, .. } => ValueView::List {
            items: if items.len() == 0 {
                seq![ValueView::Type(ValueType::Any)]
            } else if forall|i: int|
                0 <= i < items.len() ==> #[trigger] types_of(items)[i] == types_of(
                    items,
                )[0] {
                seq![types_of(items)[0]]
            } else {
                types_of(items)
            },
            spread: false,
        },
    }
}

pub broadcast proof fn lemma_types_of(s: Seq<ValueView>)
    ensures
        (#[trigger] types_of(s)).len() == s.len(),
        forall|i: int| 0 <= i < s.len() ==> types_of(s)[i] == spec_value_type(s[i]),
    decreases s,
{
    if s.len() > 0 {
        lemma_types_of(s.drop_first());
        assert forall|i: int|
            0 <= i < s.len() implies types_of(s)[i] == spec_value_type(s[i]) by {
            if i > 0 {
                assert(s.drop_first()[i - 1] == s[i]);
            }
        }
    }
}

pub broadcast proof fn lemma_all_type_shapes(s: Seq<ValueView>)
    ensures
        #[trigger] all_type_shapes(s) <==> (forall|i: int|
            0 <= i < s.len() ==> is_type_shape(s[i])),
    decreases s,
{
    if s.len() > 0 {
        lemma_all_type_shapes(s.drop_first());
        assert forall|i: int|
            0 <= i < s.len() && all_type_shapes(s) implies is_type_shape(s[i]) by {
            if i > 0 {
                assert(s.drop_first()[i - 1] == s[i]);
            }
        }
        if forall|i: int| 0 <= i < s.len() ==> is_type_shape(s[i]) {
            assert forall|i: int|
                0 <= i < s.drop_first().len() implies is_type_shape(s.drop_first()[i]) by {
                assert(s.drop_first()[i] == s[i + 1]);
            }
        }
    }
}

/// Every type descriptor this core produces is itself a type shape.
pub proof fn lemma_value_type_shape(v: ValueView)
    ensures
        is_type_shape(spec_value_type(v)),
    decreases v,
{
    match v {
        ValueView::List { items, .. } => {
            lemma_types_of(items);
            lemma_all_type_shapes(types_of(items));
            assert forall|i: int|
                0 <= i < items.len() implies is_type_shape(types_of(items)[i]) by {
                lemma_value_type_shape(items[i]);
            }
            let out = spec_value_type(v);
            match out {
                ValueView::List { items: out_items, .. } => {
                    lemma_all_type_shapes(out_items);
                }
                _ => {}
            }
        }
        _ => {}
    }
}

impl Value {
    /// The runtime type of this value, as a reified type descriptor.
    pub fn value_type(&self) -> (r: Value)
        ensures
            r@ == spec_value_type(self@),
            is_type_shape(r@),
        decreases *self,
    {
        proof {
            lemma_value_type_shape(self@);
        }
        match self {
            Value::Unit => Value::Type(ValueType::Unit),
            Value::Int(_) => Value::Type(ValueType::Integer),
            Value::Float(_) => Value::Type(ValueType::Float),
            Value::Char(_) => Value::Type(ValueType::Char),
            Value::Bool(_) => Value::Type(ValueType::Boolean),
            Value::Func(_) => Value::Type(ValueType::Function),
            Value::Closure { .. } => Value::Type(ValueType::Function),
            Value::System(_) => Value::Type(ValueType::Function),
            Value::Type(_) => Value::Type(ValueType::Type),
            Value::List { items, .. } => {
                if items.len() == 0 {
                    let out: Vec<Value> = vec![Value::Type(ValueType::Any)];
                    proof {
                        lemma_views_of(out@);
                        assert(views_of(out@) =~= seq![ValueView::Type(ValueType::Any)]);
                    }
                    return Value::List { items: out, spread: false };
                }
                proof {
                    lemma_views_of(items@);
                }
                let mut ts: Vec<Value> = Vec::new();
                let mut j: usize = 0;
                while j < items.len()
                    invariant
                        self is List,
                        items@ == self->List_items@,
                        views_of(items@).len() == items@.len(),
                        j <= items.len(),
                        ts@.len() == j,
                        forall|k: int|
                            0 <= k < j ==> (#[trigger] ts@[k])@ == spec_value_type(
                                views_of(items@)[k],
                            ),
                        forall|k: int| 0 <= k < j ==> is_type_shape(ts@[k]@),
                    decreases items.len() - j,
                {
                    proof {
                        assert(decreases_to!(*self => self->List_items));
                        assert(decreases_to!(self->List_items => self->List_items@));
                        assert(decreases_to!(self->List_items@ => self->List_items@[
                            j as int]));
                        lemma_views_of(items@);
                    }
                    let t = items[j].value_type();
                    ts.push(t);
                    j = j + 1;
                }
                let ghost w = views_of(items@);
                let mut all_same = true;
                let mut k: usize = 1;
                while k < ts.len()
                    invariant
                        self is List,
                        items@ == self->List_items@,
                        w == views_of(items@),
                        w.len() == items@.len(),
                        ts@.len() == items@.len(),
                        ts@.len() >= 1,
                        1 <= k <= ts@.len(),
                        forall|m: int|
                            0 <= m < ts@.len() ==> (#[trigger] ts@[m])@ == spec_value_type(
                                w[m],
                            ),
                        forall|m: int| 0 <= m < ts@.len() ==> is_type_shape(ts@[m]@),
                        all_same <==> (forall|m: int|
                            0 <= m < k ==> (#[trigger] ts@[m])@ == ts@[0]@),
                    decreases ts@.len() - k,
                {
                    proof {
                        lemma_views_of(items@);
                        lemma_all_type_shapes(w);
                    }
                    if !val_identical(&ts[k], &ts[0]) {
                        all_same = false;
                    }
                    k = k + 1;
                }
                proof {
                    lemma_views_of(items@);
                    lemma_types_of(w);
                    assert(self@ is List);
                    assert(self@->List_items == w);
                    assert(w.len() > 0);
                    assert forall|m: int|
                        0 <= m < w.len() implies types_of(w)[m] == (#[trigger] ts@[m])@ by {}
                }
                if all_same {
                    proof {
                        assert forall|i: int|
                            0 <= i < w.len() implies #[trigger] types_of(w)[i] == types_of(
                                w,
                            )[0] by {
                            assert(types_of(w)[i] == ts@[i]@);
                            assert(ts@[i]@ == ts@[0]@);
                        }
                    }
                    ts.truncate(1);
                    proof {
                        lemma_views_of(ts@);
                        assert(views_of(ts@) =~= seq![types_of(w)[0]]);
                    }
                    let r = Value::List { items: ts, spread: false };
                    proof {
                        assert(r@ =~= spec_value_type(self@));
                    }
                    r
                } else {
                    proof {
                        let m0 = choose|m: int|
                            0 <= m < ts@.len() && (#[trigger] ts@[m])@ != ts@[0]@;
                        assert(types_of(w)[m0] != types_of(w)[0]);
                        assert(!(forall|i: int|
                            0 <= i < w.len() ==> #[trigger] types_of(w)[i] == types_of(
                                w,
                            )[0]));
                        lemma_views_of(ts@);
                        assert(views_of(ts@) =~= types_of(w));
                    }
                    let r = Value::List { items: ts, spread: false };
                    proof {
                        assert(r@ =~= spec_value_type(self@));
                    }
                    r
                }
            }
        }
    }
}

/// Structural identity of two type descriptors: same tags, pairwise for
/// list types. This is the comparison behind the single-type collapse in
/// `value_type`, where the wildcard plays no role.
pub fn val_identical(a: &Value, b: &Value) -> (r: bool)
    requires
        is_type_shape(a@),
        is_type_shape(b@),
    ensures
        r == (a@ == b@),
    decreases *a,
{
    match (a, b) {
        (Value::Type(t1), Value::Type(t2)) => *t1 == *t2,
        (
            Value::List { items: i1, spread: s1 },
            Value::List { items: i2, spread: s2 },
        ) => {
            proof {
                lemma_views_of(i1@);
                lemma_views_of(i2@);
            }
            if *s1 != *s2 {
                return false;
            }
            if i1.len() != i2.len() {
                return false;
            }
            let mut j: usize = 0;
            let mut same = true;
            while j < i1.len()
                invariant
                    a is List,
                    b is List,
                    i1@ == a->List_items@,
                    i2@ == b->List_items@,
                    i1@.len() == i2@.len(),
                    views_of(i1@).len() == i1@.len(),
                    views_of(i2@).len() == i2@.len(),
                    is_type_shape(a@),
                    is_type_shape(b@),
                    j <= i1@.len(),
                    same <==> (forall|m: int|
                        0 <= m < j ==> views_of(i1@)[m] == views_of(i2@)[m]),
                decreases i1@.len() - j,
            {
                proof {
                    assert(decreases_to!(*a => a->List_items));
                    assert(decreases_to!(a->List_items => a->List_items@));
                    assert(decreases_to!(a->List_items@ => a->List_items@[j as int]));
                    lemma_views_of(i1@);
                    lemma_views_of(i2@);
                    lemma_all_type_shapes(views_of(i1@));
                    lemma_all_type_shapes(views_of(i2@));
                    assert(all_type_shapes(views_of(i1@)));
                    assert(all_type_shapes(views_of(i2@)));
                    assert(views_of(i1@)[j as int] == view_of(i1@[j as int]));
                    assert(views_of(i2@)[j as int] == view_of(i2@[j as int]));
                }
                let same_here = val_identical(&i1[j], &i2[j]);
                proof {
                    assert(same_here == (views_of(i1@)[j as int] == views_of(i2@)[
                        j as int]));
                }
                if !same_here {
                    same = false;
                }
                j = j + 1;
            }
            proof {
                lemma_views_of(i1@);
                lemma_views_of(i2@);
                if same {
                    assert(views_of(i1@) =~= views_of(i2@));
                }
            }
            same
        }
        (Value::Type(_), Value::List { .. }) => false,
        (Value::List { .. }, Value::Type(_)) => false,
        _ => false,
    }
}

} // verus!
