use vstd::prelude::*;

use crate::value::{Value, ValueType, ValueView, view_of, views_of, lemma_views_of};

verus! {

/// A numeric comparison the core cannot decide itself: two float bit
/// patterns, or an integer against a float bit pattern (the integer is
/// widened to a double first). The host answers each query with the IEEE
/// verdict; the query list of a comparison is produced by `eq_queries`.
#[derive(Clone, Copy, PartialEq, Eq, Structural)]
pub enum FloatQuery {
    FloatFloat(u64, u64),
    IntFloat(i128, u64),
}

/// The float comparisons that deciding `a == b` needs, in the order the
/// equality walk meets them. List elements are walked left to right; a
/// length mismatch asks nothing for the elements.
pub open spec fn eq_queries(a: ValueView, b: ValueView) -> Seq<FloatQuery>
    decreases a,
{
    match (a, b) {
        (ValueView::Type(ValueType::Any), ValueView::Type(_)) => Seq::empty(),
        (ValueView::Type(ValueType::Any), ValueView::List { .. }) => Seq::empty(),
        (ValueView::Type(_), ValueView::Type(ValueType::Any)) => Seq::empty(),
        (ValueView::List { .. }, ValueView::Type(ValueType::Any)) => Seq::empty(),
        (
            ValueView::List { items: i1, .. },
            ValueView::List { items: i2, .. },
        ) => {
            if i1.len() != i2.len() {
                Seq::empty()
            } else {
                seq_eq_queries(i1, i2)
            }
        }
        (ValueView::Float(x), ValueView::Float(y)) => seq![FloatQuery::FloatFloat(x, y)],
        (ValueView::Int(i), ValueView::Float(x)) => seq![FloatQuery::IntFloat(i, x)],
        (ValueView::Float(x), ValueView::Int(i)) => seq![FloatQuery::IntFloat(i, x)],
        _ => Seq::empty(),
    }
}

pub open spec fn seq_eq_queries(s1: Seq<ValueView>, s2: Seq<ValueView>) -> Seq<FloatQuery>
    decreases s1,
{
    if s1.len() == 0 || s1.len() != s2.len() {
        Seq::empty()
    } else {
        eq_queries(s1[0], s2[0]) + seq_eq_queries(s1.drop_first(), s2.drop_first())
    }
}

/// The language's equality, relative to a stream of answers for the float
/// comparisons it meets (consumed front to back; a missing answer counts
/// as an unequal pair). The result is the verdict together with the
/// answers left over. Rules, in order: the `Any` wildcard equals every
/// type descriptor and every list; type tags compare by tag; lists
/// compare pairwise and by spread flag; functions and closures compare by
/// their definition only; integers and floats cross-compare numerically;
/// everything else is equal only to a structurally identical value of the
/// same variant.
///
/// Hashing, by inherited design, rests on the textual dump of a value
/// alone, so values equal only through the wildcard or the numeric
/// coercions need not hash alike; no hashing consistent with this
/// equality is offered, on purpose.
pub open spec fn spec_eq(a: ValueView, b: ValueView, ans: Seq<bool>) -> (bool, Seq<bool>)
    decreases a,
{
    match (a, b) {
        (ValueView::Type(ValueType::Any), ValueView::Type(_)) => (true, ans),
        (ValueView::Type(ValueType::Any), ValueView::List { .. }) => (true, ans),
        (ValueView::Type(_), ValueView::Type(ValueType::Any)) => (true, ans),
        (ValueView::List { .. }, ValueView::Type(ValueType::Any)) => (true, ans),
        (ValueView::Type(t1), ValueView::Type(t2)) => (t1 == t2, ans),
        (
            ValueView::List { items: i1, spread: s1 },
            ValueView::List { items: i2, spread: s2 },
        ) => {
            if i1.len() != i2.len() {
                (false, ans)
            } else {
                let (r, rest) = seq_spec_eq(i1, i2, ans);
                (r && s1 == s2, rest)
            }
        }
        (ValueView::Func(f1), ValueView::Func(f2)) => (f1 == f2, ans),
        (
            ValueView::Closure { def: d1, .. },
            ValueView::Closure { def: d2, .. },
        ) => (d1 == d2, ans),
        (ValueView::Int(i1), ValueView::Int(i2)) => (i1 == i2, ans),
        (ValueView::Float(_), ValueView::Float(_)) => next_answer(ans),
        (ValueView::Int(_), ValueView::Float(_)) => next_answer(ans),
        (ValueView::Float(_), ValueView::Int(_)) => next_answer(ans),
        (ValueView::Unit, ValueView::Unit) => (true, ans),
        (ValueView::Char(c1), ValueView::Char(c2)) => (c1 == c2, ans),
        (ValueView::Bool(b1), ValueView::Bool(b2)) => (b1 == b2, ans),
        (ValueView::System(k1), ValueView::System(k2)) => (k1 == k2, ans),
        _ => (false, ans),
    }
}

pub open spec fn next_answer(ans: Seq<bool>) -> (bool, Seq<bool>) {
    if ans.len() == 0 {
        (false, ans)
    } else {
        (ans[0], ans.drop_first())
    }
}

pub open spec fn seq_spec_eq(s1: Seq<ValueView>, s2: Seq<ValueView>, ans: Seq<bool>) -> (
    bool,
    Seq<bool>,
)
    decreases s1,
{
    if s1.len() == 0 || s1.len() != s2.len() {
        (true, ans)
    } else {
        let (r0, a0) = spec_eq(s1[0], s2[0], ans);
        let (rr, ar) = seq_spec_eq(s1.drop_first(), s2.drop_first(), a0);
        (r0 && rr, ar)
    }
}

/// The float comparisons `val_eq_with` would consume for this pair, in
/// consumption order.
pub fn collect_eq_queries(a: &Value, b: &Value) -> (q: Vec<FloatQuery>)
    ensures
        q@ == eq_queries(a@, b@),
    decreases *a,
{
    match (a, b) {
        (Value::Type(ValueType::Any), Value::Type(_)) => Vec::new(),
        (Value::Type(ValueType::Any), Value::List { .. }) => Vec::new(),
        (Value::Type(_), Value::Type(ValueType::Any)) => Vec::new(),
        (Value::List { .. }, Value::Type(ValueType::Any)) => Vec::new(),
        (
            Value::List { items: i1, .. },
            Value::List { items: i2, .. },
        ) => {
            proof {
                lemma_views_of(i1@);
                lemma_views_of(i2@);
            }
            let mut q: Vec<FloatQuery> = Vec::new();
            if i1.len() != i2.len() {
                return q;
            }
            let ghost w1 = views_of(i1@);
            let ghost w2 = views_of(i2@);
            let mut j: usize = 0;
            while j < i1.len()
                invariant
                    a is List,
                    b is List,
                    i1@ == a->List_items@,
                    i2@ == b->List_items@,
                    w1 == views_of(i1@),
                    w2 == views_of(i2@),
                    w1.len() == i1@.len(),
                    w2.len() == i2@.len(),
                    i1@.len() == i2@.len(),
                    j <= i1@.len(),
                    q@ == seq_eq_queries(w1.take(j as int), w2.take(j as int)),
                decreases i1@.len() - j,
            {
                proof {
                    assert(decreases_to!(*a => a->List_items));
                    assert(decreases_to!(a->List_items => a->List_items@));
                    assert(decreases_to!(a->List_items@ => a->List_items@[j as int]));
                    lemma_views_of(i1@);
                    lemma_views_of(i2@);
                }
                let mut qj = collect_eq_queries(&i1[j], &i2[j]);
                let ghost q_before = q@;
                append_queries(&mut q, qj);
                j = j + 1;
                proof {
                    lemma_seq_eq_queries_take(w1, w2, j as int);
                }
            }
            proof {
                assert(w1.take(i1@.len() as int) =~= w1);
                assert(w2.take(i2@.len() as int) =~= w2);
            }
            q
        }
        (Value::Float(x), Value::Float(y)) => {
            let q: Vec<FloatQuery> = vec![FloatQuery::FloatFloat(*x, *y)];
            proof {
                assert(q@ =~= eq_queries(a@, b@));
            }
            q
        }
        (Value::Int(i), Value::Float(x)) => {
            let q: Vec<FloatQuery> = vec![FloatQuery::IntFloat(*i, *x)];
            proof {
                assert(q@ =~= eq_queries(a@, b@));
            }
            q
        }
        (Value::Float(x), Value::Int(i)) => {
            let q: Vec<FloatQuery> = vec![FloatQuery::IntFloat(*i, *x)];
            proof {
                assert(q@ =~= eq_queries(a@, b@));
            }
            q
        }
        _ => Vec::new(),
    }
}

fn append_queries(dst: &mut Vec<FloatQuery>, src: Vec<FloatQuery>) -> (r: ())
    ensures
        final(dst)@ == old(dst)@ + src@,
{
    let mut k: usize = 0;
    let ghost src0 = src@;
    while k < src.len()
        invariant
            k <= src@.len(),
            src@ == src0,
            dst@ == old(dst)@ + src0.take(k as int),
        decreases src@.len() - k,
    {
        dst.push(src[k]);
        k = k + 1;
        proof {
            assert(old(dst)@ + src0.take(k as int) =~= (old(dst)@ + src0.take(
                k as int - 1,
            )).push(src0[k as int - 1]));
        }
    }
    proof {
        assert(src0.take(src0.len() as int) =~= src0);
    }
}

proof fn lemma_seq_eq_queries_take(s1: Seq<ValueView>, s2: Seq<ValueView>, j: int)
    requires
        s1.len() == s2.len(),
        0 < j <= s1.len(),
    ensures
        seq_eq_queries(s1.take(j), s2.take(j)) == seq_eq_queries(
            s1.take(j - 1),
            s2.take(j - 1),
        ) + eq_queries(s1[j - 1], s2[j - 1]),
    decreases j,
{
    if j == 1 {
        assert(s1.take(0) =~= Seq::<ValueView>::empty());
        assert(seq_eq_queries(s1.take(0), s2.take(0)) =~= Seq::<FloatQuery>::empty());
        assert(s1.take(1).drop_first() =~= Seq::<ValueView>::empty());
        assert(s2.take(1).drop_first() =~= Seq::<ValueView>::empty());
        assert(s1.take(1)[0] == s1[0]);
        assert(s2.take(1)[0] == s2[0]);
        assert(seq_eq_queries(s1.take(1), s2.take(1)) == eq_queries(
            s1.take(1)[0],
            s2.take(1)[0],
        ) + seq_eq_queries(s1.take(1).drop_first(), s2.take(1).drop_first()));
        assert(seq_eq_queries(s1.take(1).drop_first(), s2.take(1).drop_first())
            =~= Seq::<FloatQuery>::empty());
        assert(eq_queries(s1[0], s2[0]) + Seq::<FloatQuery>::empty() =~= eq_queries(
            s1[0],
            s2[0],
        ));
        assert(seq_eq_queries(s1.take(1), s2.take(1)) =~= eq_queries(s1[0], s2[0]));
        assert(seq_eq_queries(s1.take(j - 1), s2.take(j - 1)) + eq_queries(s1[0], s2[0])
            =~= eq_queries(s1[0], s2[0]));
    } else {
        lemma_seq_eq_queries_take(s1.drop_first(), s2.drop_first(), j - 1);
        assert(s1.take(j).drop_first() =~= s1.drop_first().take(j - 1));
        assert(s2.take(j).drop_first() =~= s2.drop_first().take(j - 1));
        assert(s1.take(j - 1).drop_first() =~= s1.drop_first().take(j - 2));
        assert(s2.take(j - 1).drop_first() =~= s2.drop_first().take(j - 2));
        assert(s1.take(j)[0] == s1[0]);
        assert(s1.take(j - 1)[0] == s1[0]);
        assert(s1.drop_first()[j - 2] == s1[j - 1]);
        assert(seq_eq_queries(s1.take(j), s2.take(j)) == eq_queries(s1[0], s2[0])
            + seq_eq_queries(s1.drop_first().take(j - 1), s2.drop_first().take(j - 1)));
        assert((eq_queries(s1[0], s2[0]) + seq_eq_queries(
            s1.drop_first().take(j - 2),
            s2.drop_first().take(j - 2),
        )) + eq_queries(s1[j - 1], s2[j - 1]) =~= eq_queries(s1[0], s2[0])
            + (seq_eq_queries(s1.drop_first().take(j - 2), s2.drop_first().take(j - 2))
            + eq_queries(s1[j - 1], s2[j - 1])));
    }
}

/// Equality given answers to the float comparisons, consumed from the
/// front of `ans`. With the queries of `collect_eq_queries` answered by
/// the IEEE verdicts this is the language's equality; with no answers
/// every numeric-float pair counts unequal.
pub fn val_eq_with(a: &Value, b: &Value, ans: &mut Vec<bool>) -> (r: bool)
    ensures
        r == spec_eq(a@, b@, old(ans)@).0,
        final(ans)@ == spec_eq(a@, b@, old(ans)@).1,
    decreases *a,
{
    match (a, b) {
        (Value::Type(ValueType::Any), Value::Type(_)) => true,
        (Value::Type(ValueType::Any), Value::List { .. }) => true,
        (Value::Type(_), Value::Type(ValueType::Any)) => true,
        (Value::List { .. }, Value::Type(ValueType::Any)) => true,
        (Value::Type(t1), Value::Type(t2)) => *t1 == *t2,
        (
            Value::List { items: i1, spread: s1 },
            Value::List { items: i2, spread: s2 },
        ) => {
            proof {
                lemma_views_of(i1@);
                lemma_views_of(i2@);
            }
            if i1.len() != i2.len() {
                return false;
            }
            let ghost w1 = views_of(i1@);
            let ghost w2 = views_of(i2@);
            let ghost ans0 = ans@;
            proof {
                assert(w1.skip(0) =~= w1);
                assert(w2.skip(0) =~= w2);
            }
            let mut acc = true;
            let mut j: usize = 0;
            while j < i1.len()
                invariant
                    a is List,
                    b is List,
                    i1@ == a->List_items@,
                    i2@ == b->List_items@,
                    w1 == views_of(i1@),
                    w2 == views_of(i2@),
                    w1.len() == i1@.len(),
                    w2.len() == i2@.len(),
                    i1@.len() == i2@.len(),
                    j <= i1@.len(),
                    seq_spec_eq(w1, w2, ans0).0 == (acc && seq_spec_eq(
                        w1.skip(j as int),
                        w2.skip(j as int),
                        ans@,
                    ).0),
                    seq_spec_eq(w1, w2, ans0).1 == seq_spec_eq(
                        w1.skip(j as int),
                        w2.skip(j as int),
                        ans@,
                    ).1,
                decreases i1@.len() - j,
            {
                proof {
                    assert(decreases_to!(*a => a->List_items));
                    assert(decreases_to!(a->List_items => a->List_items@));
                    assert(decreases_to!(a->List_items@ => a->List_items@[j as int]));
                    lemma_views_of(i1@);
                    lemma_views_of(i2@);
                    assert(w1.skip(j as int).len() > 0);
                    assert(w1.skip(j as int)[0] == w1[j as int]);
                    assert(w2.skip(j as int)[0] == w2[j as int]);
                    assert(w1.skip(j as int).drop_first() =~= w1.skip(j as int + 1));
                    assert(w2.skip(j as int).drop_first() =~= w2.skip(j as int + 1));
                }
                let rj = val_eq_with(&i1[j], &i2[j], ans);
                if !rj {
                    acc = false;
                }
                j = j + 1;
            }
            proof {
                assert(w1.skip(i1@.len() as int) =~= Seq::<ValueView>::empty());
                assert(w2.skip(i2@.len() as int) =~= Seq::<ValueView>::empty());
            }
            acc && *s1 == *s2
        }
        (Value::Func(f1), Value::Func(f2)) => f1.key == f2.key,
        (
            Value::Closure { def: d1, .. },
            Value::Closure { def: d2, .. },
        ) => d1.key == d2.key,
        (Value::Int(i1), Value::Int(i2)) => *i1 == *i2,
        (Value::Float(_), Value::Float(_)) => take_answer(ans),
        (Value::Int(_), Value::Float(_)) => take_answer(ans),
        (Value::Float(_), Value::Int(_)) => take_answer(ans),
        (Value::Unit, Value::Unit) => true,
        (Value::Char(c1), Value::Char(c2)) => *c1 == *c2,
        (Value::Bool(b1), Value::Bool(b2)) => *b1 == *b2,
        (Value::System(k1), Value::System(k2)) => *k1 == *k2,
        _ => false,
    }
}

fn take_answer(ans: &mut Vec<bool>) -> (r: bool)
    ensures
        r == next_answer(old(ans)@).0,
        final(ans)@ == next_answer(old(ans)@).1,
{
    if ans.len() == 0 {
        false
    } else {
        ans.remove(0)
    }
}

/// Equality with no float answers supplied: exactly the language's
/// equality whenever no integer-float or float-float pair is compared
/// (`eq_queries` is empty), and the conservative verdict otherwise.
pub fn val_eq(a: &Value, b: &Value) -> (r: bool)
    ensures
        r == spec_eq(a@, b@, Seq::<bool>::empty()).0,
{
    let mut ans: Vec<bool> = Vec::new();
    val_eq_with(a, b, &mut ans)
}

} // verus!
