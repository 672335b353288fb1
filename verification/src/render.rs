use vstd::prelude::*;

use crate::value::{Value, ValueType, ValueView, view_of, views_of, lemma_views_of};
use crate::cast::is_char_list_of;

verus! {

pub open spec fn digit_char(d: int) -> char {
    if d == 0 {
        '0'
    } else if d == 1 {
        '1'
    } else if d == 2 {
        '2'
    } else if d == 3 {
        '3'
    } else if d == 4 {
        '4'
    } else if d == 5 {
        '5'
    } else if d == 6 {
        '6'
    } else if d == 7 {
        '7'
    } else if d == 8 {
        '8'
    } else {
        '9'
    }
}

/// Decimal text of a nonnegative number.
pub open spec fn nat_text(n: int) -> Seq<char>
    decreases n,
{
    if n < 10 {
        seq![digit_char(n)]
    } else {
        nat_text(n / 10).push(digit_char(n % 10))
    }
}

/// Decimal text of an integer, with a leading minus for negatives.
pub open spec fn int_text(i: int) -> Seq<char> {
    if i < 0 {
        seq!['-'] + nat_text(-i)
    } else {
        nat_text(i)
    }
}

/// The canonical print form of a value, relative to a stream of texts for
/// the floats it contains (consumed front to back; a missing text prints
/// as nothing). Unit prints as the empty-unit token, numbers in decimal,
/// a char as itself, booleans as the capitalized tokens, a spread-free
/// list of chars as the bare run of its chars, any other list bracketed
/// and comma-joined with the spread glyph in front when marked, callables
/// as fixed opaque tokens, and a type descriptor as its type name.
pub open spec fn spec_render(v: ValueView, texts: Seq<Seq<char>>) -> (Seq<char>, Seq<Seq<char>>)
    decreases v,
{
    match v {
        ValueView::Unit => (seq!['(', ')'], texts),
        ValueView::Int(i) => (int_text(i as int), texts),
        ValueView::Float(_) => next_text(texts),
        ValueView::Char(c) => (seq![c], texts),
        ValueView::Bool(b) => (
            if b {
                seq!['T', 'r', 'u', 'e']
            } else {
                seq!['F', 'a', 'l', 's', 'e']
            },
            texts,
        ),
        ValueView::List { items, spread } => {
            let (parts, rest) = seq_renders(items, texts);
            if items.len() > 0 && !spread && (forall|k: int|
                0 <= k < items.len() ==> items[k] is Char) {
                (join_texts(parts, Seq::empty()), rest)
            } else {
                (
                    (if spread {
                        seq!['.', '.']
                    } else {
                        Seq::empty()
                    }) + seq!['['] + join_texts(parts, seq![',', ' ']) + seq![']'],
                    rest,
                )
            }
        }
        ValueView::Func(_) => (seq!['<', 'f', 'n', '>'], texts),
        ValueView::Closure { .. } => (
            seq!['<', 'c', 'l', 'o', 's', 'u', 'r', 'e', '>'],
            texts,
        ),
        ValueView::System(_) => (seq!['<', 's', 'y', 's', 't', 'e', 'm', '>'], texts),
        ValueView::Type(t) => (type_text(t), texts),
    }
}

pub open spec fn next_text(texts: Seq<Seq<char>>) -> (Seq<char>, Seq<Seq<char>>) {
    if texts.len() == 0 {
        (Seq::empty(), texts)
    } else {
        (texts[0], texts.drop_first())
    }
}

pub open spec fn seq_renders(items: Seq<ValueView>, texts: Seq<Seq<char>>) -> (
    Seq<Seq<char>>,
    Seq<Seq<char>>,
)
    decreases items,
{
    if items.len() == 0 {
        (Seq::empty(), texts)
    } else {
        let (r0, t0) = spec_render(items[0], texts);
        let (rr, tr) = seq_renders(items.drop_first(), t0);
        (seq![r0] + rr, tr)
    }
}

pub open spec fn join_texts(parts: Seq<Seq<char>>, sep: Seq<char>) -> Seq<char>
    decreases parts,
{
    if parts.len() == 0 {
        Seq::empty()
    } else if parts.len() == 1 {
        parts[0]
    } else {
        parts[0] + sep + join_texts(parts.drop_first(), sep)
    }
}

pub open spec fn type_text(t: ValueType) -> Seq<char> {
    match t {
        ValueType::Unit => seq!['U', 'n', 'i', 't'],
        ValueType::Integer => seq!['I', 'n', 't', 'e', 'g', 'e', 'r'],
        ValueType::Float => seq!['F', 'l', 'o', 'a', 't'],
        ValueType::Char => seq!['C', 'h', 'a', 'r'],
        ValueType::Boolean => seq!['B', 'o', 'o', 'l', 'e', 'a', 'n'],
        ValueType::Function => seq!['F', 'u', 'n', 'c', 't', 'i', 'o', 'n'],
        ValueType::Type => seq!['T', 'y', 'p', 'e'],
        ValueType::Any => seq!['A', 'n', 'y'],
    }
}

/// The floats a rendering of `v` would print, in consumption order.
pub open spec fn float_slots(v: ValueView) -> Seq<u64>
    decreases v,
{
    match v {
        ValueView::Float(b) => seq![b],
        ValueView::List { items, .. } => seq_float_slots(items),
        _ => Seq::empty(),
    }
}

pub open spec fn seq_float_slots(items: Seq<ValueView>) -> Seq<u64>
    decreases items,
{
    if items.len() == 0 {
        Seq::empty()
    } else {
        float_slots(items[0]) + seq_float_slots(items.drop_first())
    }
}

proof fn lemma_join_push(parts: Seq<Seq<char>>, sep: Seq<char>, p: Seq<char>)
    ensures
        join_texts(parts.push(p), sep) == if parts.len() == 0 {
            p
        } else {
            join_texts(parts, sep) + sep + p
        },
    decreases parts,
{
    if parts.len() == 0 {
        assert(parts.push(p).len() == 1);
        assert(parts.push(p)[0] == p);
    } else if parts.len() == 1 {
        assert(parts.push(p).drop_first() =~= parts.drop_first().push(p));
        assert(parts.push(p)[0] == parts[0]);
        assert(parts.drop_first().push(p) =~= seq![p]);
        assert(join_texts(parts.push(p), sep) == parts[0] + sep + join_texts(
            seq![p],
            sep,
        ));
        assert(join_texts(seq![p], sep) == p);
        assert(join_texts(parts, sep) == parts[0]);
    } else {
        lemma_join_push(parts.drop_first(), sep, p);
        assert(parts.push(p).drop_first() =~= parts.drop_first().push(p));
        assert(parts.push(p)[0] == parts[0]);
        assert(join_texts(parts.push(p), sep) == parts[0] + sep + join_texts(
            parts.drop_first().push(p),
            sep,
        ));
        assert(parts[0] + sep + (join_texts(parts.drop_first(), sep) + sep + p)
            =~= (parts[0] + sep + join_texts(parts.drop_first(), sep)) + sep + p);
    }
}

/// Appends a borrowed run of chars.
fn append_chars(dst: &mut Vec<char>, src: &Vec<char>) -> (r: ())
    ensures
        final(dst)@ == old(dst)@ + src@,
{
    let mut k: usize = 0;
    let ghost d0 = dst@;
    while k < src.len()
        invariant
            k <= src@.len(),
            dst@ == d0 + src@.take(k as int),
        decreases src@.len() - k,
    {
        dst.push(src[k]);
        k = k + 1;
        proof {
            assert(d0 + src@.take(k as int) =~= (d0 + src@.take(k as int - 1)).push(
                src@[k as int - 1],
            ));
        }
    }
    proof {
        assert(src@.take(src@.len() as int) =~= src@);
    }
}

fn push_str_chars(dst: &mut Vec<char>, a: char, b: char) -> (r: ())
    ensures
        final(dst)@ == old(dst)@ + seq![a, b],
{
    dst.push(a);
    dst.push(b);
    proof {
        assert(dst@ =~= old(dst)@ + seq![a, b]);
    }
}

fn digit_char_exec(d: u128) -> (c: char)
    requires
        d < 10,
    ensures
        c == digit_char(d as int),
{
    if d == 0 {
        '0'
    } else if d == 1 {
        '1'
    } else if d == 2 {
        '2'
    } else if d == 3 {
        '3'
    } else if d == 4 {
        '4'
    } else if d == 5 {
        '5'
    } else if d == 6 {
        '6'
    } else if d == 7 {
        '7'
    } else if d == 8 {
        '8'
    } else {
        '9'
    }
}

fn nat_text_exec(n: u128) -> (s: Vec<char>)
    ensures
        s@ == nat_text(n as int),
    decreases n,
{
    if n < 10 {
        let c = digit_char_exec(n);
        let s: Vec<char> = vec![c];
        proof {
            assert(s@ =~= seq![digit_char(n as int)]);
        }
        s
    } else {
        let mut s = nat_text_exec(n / 10);
        let c = digit_char_exec(n % 10);
        s.push(c);
        s
    }
}

/// Decimal rendering of a machine integer.
pub fn int_text_exec(i: i128) -> (s: Vec<char>)
    ensures
        s@ == int_text(i as int),
{
    if i >= 0 {
        nat_text_exec(i as u128)
    } else {
        let mag: u128 = (-(i + 1)) as u128 + 1;
        let t = nat_text_exec(mag);
        let mut s: Vec<char> = vec!['-'];
        append_chars(&mut s, &t);
        proof {
            assert(s@ =~= seq!['-'] + nat_text(mag as int));
        }
        s
    }
}

/// Renders a value, taking the print form of each float it meets from the
/// front of `texts`. With the slots of `collect_float_slots` rendered by
/// the host in order, this is the value's canonical print form.
pub fn render_with(v: &Value, texts: &mut Vec<Vec<char>>) -> (out: Vec<char>)
    ensures
        out@ == spec_render(v@, old(texts).deep_view()).0,
        final(texts).deep_view() == spec_render(v@, old(texts).deep_view()).1,
    decreases *v,
{
    match v {
        Value::Unit => {
            let out: Vec<char> = vec!['(', ')'];
            proof {
                assert(out@ =~= seq!['(', ')']);
            }
            out
        }
        Value::Int(i) => int_text_exec(*i),
        Value::Float(_) => {
            if texts.len() == 0 {
                let out: Vec<char> = Vec::new();
                proof {
                    assert(out@ =~= Seq::<char>::empty());
                    assert(final(texts).deep_view() =~= old(texts).deep_view());
                }
                out
            } else {
                let out = texts.remove(0);
                proof {
                    assert(out@ == old(texts).deep_view()[0]);
                    assert(texts.deep_view() =~= old(texts).deep_view().drop_first());
                }
                out
            }
        }
        Value::Char(c) => {
            let out: Vec<char> = vec![*c];
            proof {
                assert(out@ =~= seq![v@->Char_0]);
            }
            out
        }
        Value::Bool(b) => {
            if *b {
                let out: Vec<char> = vec!['T', 'r', 'u', 'e'];
                proof {
                    assert(out@ =~= seq!['T', 'r', 'u', 'e']);
                }
                out
            } else {
                let out: Vec<char> = vec!['F', 'a', 'l', 's', 'e'];
                proof {
                    assert(out@ =~= seq!['F', 'a', 'l', 's', 'e']);
                }
                out
            }
        }
        Value::Func(_) => {
            let out: Vec<char> = vec!['<', 'f', 'n', '>'];
            proof {
                assert(out@ =~= seq!['<', 'f', 'n', '>']);
            }
            out
        }
        Value::Closure { .. } => {
            let out: Vec<char> = vec!['<', 'c', 'l', 'o', 's', 'u', 'r', 'e', '>'];
            proof {
                assert(out@ =~= seq!['<', 'c', 'l', 'o', 's', 'u', 'r', 'e', '>']);
            }
            out
        }
        Value::System(_) => {
            let out: Vec<char> = vec!['<', 's', 'y', 's', 't', 'e', 'm', '>'];
            proof {
                assert(out@ =~= seq!['<', 's', 'y', 's', 't', 'e', 'm', '>']);
            }
            out
        }
        Value::Type(t) => {
            let out = type_text_exec(t);
            out
        }
        Value::List { items, spread } => {
            proof {
                lemma_views_of(items@);
            }
            let ghost w = views_of(items@);
            let ghost t0 = texts.deep_view();
            let ghost full = seq_renders(w, t0);
            proof {
                assert(w.skip(0) =~= w);
            }
            let mut parts: Vec<Vec<char>> = Vec::new();
            let mut all_char = true;
            let mut j: usize = 0;
            while j < items.len()
                invariant
                    v is List,
                    items@ == v->List_items@,
                    w == views_of(items@),
                    w.len() == items@.len(),
                    full == seq_renders(w, t0),
                    j <= items@.len(),
                    parts@.len() == j,
                    full.0 == parts.deep_view() + seq_renders(
                        w.skip(j as int),
                        texts.deep_view(),
                    ).0,
                    full.1 == seq_renders(w.skip(j as int), texts.deep_view()).1,
                    all_char <==> (forall|k: int| 0 <= k < j ==> w[k] is Char),
                decreases items@.len() - j,
            {
                proof {
                    assert(decreases_to!(*v => v->List_items));
                    assert(decreases_to!(v->List_items => v->List_items@));
                    assert(decreases_to!(v->List_items@ => v->List_items@[j as int]));
                    lemma_views_of(items@);
                    assert(w.skip(j as int).len() > 0);
                    assert(w.skip(j as int)[0] == w[j as int]);
                    assert(w.skip(j as int).drop_first() =~= w.skip(j as int + 1));
                }
                if !matches!(&items[j], Value::Char(_)) {
                    all_char = false;
                }
                let ghost oldp = parts.deep_view();
                let ghost told = texts.deep_view();
                let rj = render_with(&items[j], texts);
                let ghost rjv = rj@;
                parts.push(rj);
                j = j + 1;
                proof {
                    assert(parts.deep_view() =~~= oldp.push(rjv));
                    let step = seq_renders(w.skip(j as int - 1), told);
                    let rest = seq_renders(w.skip(j as int), texts.deep_view());
                    assert(step.0 == seq![rjv] + rest.0);
                    assert(oldp + (seq![rjv] + rest.0) =~~= oldp.push(rjv) + rest.0);
                    assert(full.0 =~~= parts.deep_view() + rest.0);
                }
            }
            proof {
                assert(w.skip(items@.len() as int) =~= Seq::<ValueView>::empty());
                assert(parts.deep_view() + Seq::<Seq<char>>::empty() =~~= parts.deep_view());
                assert(full.0 =~~= parts.deep_view());
            }
            if all_char && items.len() > 0 && !*spread {
                let out = join_parts(&parts, &Vec::new());
                out
            } else {
                let mut out: Vec<char> = Vec::new();
                if *spread {
                    push_str_chars(&mut out, '.', '.');
                }
                out.push('[');
                let sep: Vec<char> = vec![',', ' '];
                proof {
                    assert(sep@ =~= seq![',', ' ']);
                }
                let joined = join_parts(&parts, &sep);
                append_chars(&mut out, &joined);
                out.push(']');
                proof {
                    if *spread {
                        assert(out@ =~= seq!['.', '.'] + seq!['['] + join_texts(
                            parts.deep_view(),
                            seq![',', ' '],
                        ) + seq![']']);
                    } else {
                        assert(out@ =~= Seq::<char>::empty() + seq!['['] + join_texts(
                            parts.deep_view(),
                            seq![',', ' '],
                        ) + seq![']']);
                    }
                }
                out
            }
        }
    }
}

fn type_text_exec(t: &ValueType) -> (out: Vec<char>)
    ensures
        out@ == type_text(*t),
{
    let out: Vec<char> = match t {
        ValueType::Unit => vec!['U', 'n', 'i', 't'],
        ValueType::Integer => vec!['I', 'n', 't', 'e', 'g', 'e', 'r'],
        ValueType::Float => vec!['F', 'l', 'o', 'a', 't'],
        ValueType::Char => vec!['C', 'h', 'a', 'r'],
        ValueType::Boolean => vec!['B', 'o', 'o', 'l', 'e', 'a', 'n'],
        ValueType::Function => vec!['F', 'u', 'n', 'c', 't', 'i', 'o', 'n'],
        ValueType::Type => vec!['T', 'y', 'p', 'e'],
        ValueType::Any => vec!['A', 'n', 'y'],
    };
    proof {
        assert(out@ =~= type_text(*t));
    }
    out
}

pub fn join_parts(parts: &Vec<Vec<char>>, sep: &Vec<char>) -> (out: Vec<char>)
    ensures
        out@ == join_texts(parts.deep_view(), sep@),
{
    let mut out: Vec<char> = Vec::new();
    let mut j: usize = 0;
    while j < parts.len()
        invariant
            j <= parts@.len(),
            parts.deep_view().len() == parts@.len(),
            out@ == join_texts(parts.deep_view().take(j as int), sep@),
        decreases parts@.len() - j,
    {
        if j > 0 {
            append_chars(&mut out, sep);
        }
        append_chars(&mut out, &parts[j]);
        j = j + 1;
        proof {
            let pd = parts.deep_view();
            lemma_join_push(pd.take(j as int - 1), sep@, pd[j as int - 1]);
            assert(pd.take(j as int) =~= pd.take(j as int - 1).push(pd[j as int - 1]));
        }
    }
    proof {
        assert(parts.deep_view().take(parts@.len() as int) =~= parts.deep_view());
    }
    out
}

/// The float bit patterns a rendering of `v` would print, in order.
pub fn collect_float_slots(v: &Value) -> (out: Vec<u64>)
    ensures
        out@ == float_slots(v@),
    decreases *v,
{
    match v {
        Value::Float(b) => {
            let out: Vec<u64> = vec![*b];
            proof {
                assert(out@ =~= seq![v@->Float_0]);
            }
            out
        }
        Value::List { items, .. } => {
            proof {
                lemma_views_of(items@);
            }
            let ghost w = views_of(items@);
            let mut out: Vec<u64> = Vec::new();
            let mut j: usize = 0;
            while j < items.len()
                invariant
                    v is List,
                    items@ == v->List_items@,
                    w == views_of(items@),
                    w.len() == items@.len(),
                    j <= items@.len(),
                    out@ == seq_float_slots(w.take(j as int)),
                decreases items@.len() - j,
            {
                proof {
                    assert(decreases_to!(*v => v->List_items));
                    assert(decreases_to!(v->List_items => v->List_items@));
                    assert(decreases_to!(v->List_items@ => v->List_items@[j as int]));
                    lemma_views_of(items@);
                }
                let sj = collect_float_slots(&items[j]);
                let mut k: usize = 0;
                let ghost o0 = out@;
                while k < sj.len()
                    invariant
                        k <= sj@.len(),
                        out@ == o0 + sj@.take(k as int),
                    decreases sj@.len() - k,
                {
                    out.push(sj[k]);
                    k = k + 1;
                    proof {
                        assert(o0 + sj@.take(k as int) =~= (o0 + sj@.take(k as int - 1)).push(
                            sj@[k as int - 1],
                        ));
                    }
                }
                j = j + 1;
                proof {
                    assert(sj@.take(sj@.len() as int) =~= sj@);
                    lemma_seq_float_slots_take(w, j as int);
                }
            }
            proof {
                assert(w.take(items@.len() as int) =~= w);
            }
            out
        }
        _ => Vec::new(),
    }
}

proof fn lemma_seq_float_slots_take(s: Seq<ValueView>, j: int)
    requires
        0 < j <= s.len(),
    ensures
        seq_float_slots(s.take(j)) == seq_float_slots(s.take(j - 1)) + float_slots(
            s[j - 1],
        ),
    decreases j,
{
    if j == 1 {
        assert(s.take(0) =~= Seq::<ValueView>::empty());
        assert(seq_float_slots(s.take(0)) =~= Seq::<u64>::empty());
        assert(s.take(1)[0] == s[0]);
        assert(s.take(1).drop_first() =~= Seq::<ValueView>::empty());
        assert(seq_float_slots(s.take(1)) == float_slots(s[0]) + seq_float_slots(
            s.take(1).drop_first(),
        ));
        assert(float_slots(s[0]) + Seq::<u64>::empty() =~= float_slots(s[0]));
        assert(Seq::<u64>::empty() + float_slots(s[0]) =~= float_slots(s[0]));
    } else {
        lemma_seq_float_slots_take(s.drop_first(), j - 1);
        assert(s.take(j).drop_first() =~= s.drop_first().take(j - 1));
        assert(s.take(j - 1).drop_first() =~= s.drop_first().take(j - 2));
        assert(s.take(j)[0] == s[0]);
        assert(s.take(j - 1)[0] == s[0]);
        assert(s.drop_first()[j - 2] == s[j - 1]);
        assert(seq_float_slots(s.take(j)) == float_slots(s[0]) + seq_float_slots(
            s.drop_first().take(j - 1),
        ));
        assert((float_slots(s[0]) + seq_float_slots(s.drop_first().take(j - 2)))
            + float_slots(s[j - 1]) =~= float_slots(s[0]) + (seq_float_slots(
            s.drop_first().take(j - 2),
        ) + float_slots(s[j - 1])));
    }
}

/// Renders each value in order, consuming float texts from the front of
/// `texts`, and joins the renderings with the separator.
pub fn render_joined(values: &Vec<Value>, texts: &mut Vec<Vec<char>>, sep: &Vec<char>) -> (out:
    Vec<char>)
    ensures
        out@ == join_texts(
            seq_renders(views_of(values@), old(texts).deep_view()).0,
            sep@,
        ),
        final(texts).deep_view() == seq_renders(
            views_of(values@),
            old(texts).deep_view(),
        ).1,
{
    proof {
        lemma_views_of(values@);
    }
    let ghost w = views_of(values@);
    let ghost t0 = texts.deep_view();
    let ghost full = seq_renders(w, t0);
    proof {
        assert(w.skip(0) =~= w);
    }
    let mut parts: Vec<Vec<char>> = Vec::new();
    let mut j: usize = 0;
    while j < values.len()
        invariant
            w == views_of(values@),
            w.len() == values@.len(),
            full == seq_renders(w, t0),
            j <= values@.len(),
            parts@.len() == j,
            full.0 == parts.deep_view() + seq_renders(
                w.skip(j as int),
                texts.deep_view(),
            ).0,
            full.1 == seq_renders(w.skip(j as int), texts.deep_view()).1,
        decreases values@.len() - j,
    {
        proof {
            lemma_views_of(values@);
            assert(w.skip(j as int).len() > 0);
            assert(w.skip(j as int)[0] == w[j as int]);
            assert(w.skip(j as int).drop_first() =~= w.skip(j as int + 1));
        }
        let ghost oldp = parts.deep_view();
        let ghost told = texts.deep_view();
        let rj = render_with(&values[j], texts);
        let ghost rjv = rj@;
        parts.push(rj);
        j = j + 1;
        proof {
            assert(parts.deep_view() =~~= oldp.push(rjv));
            let step = seq_renders(w.skip(j as int - 1), told);
            let rest = seq_renders(w.skip(j as int), texts.deep_view());
            assert(step.0 == seq![rjv] + rest.0);
            assert(oldp + (seq![rjv] + rest.0) =~~= oldp.push(rjv) + rest.0);
            assert(full.0 =~~= parts.deep_view() + rest.0);
        }
    }
    proof {
        assert(w.skip(values@.len() as int) =~= Seq::<ValueView>::empty());
        assert(parts.deep_view() + Seq::<Seq<char>>::empty() =~~= parts.deep_view());
        assert(full.0 =~~= parts.deep_view());
    }
    join_parts(&parts, sep)
}

/// The canonical print form of a float-free value; floats print as
/// nothing here, so the host supplies their texts through `render_with`.
pub fn render_plain(v: &Value) -> (out: Vec<char>)
    ensures
        out@ == spec_render(v@, Seq::<Seq<char>>::empty()).0,
{
    let mut texts: Vec<Vec<char>> = Vec::new();
    proof {
        assert(texts.deep_view() =~= Seq::<Seq<char>>::empty());
    }
    render_with(v, &mut texts)
}

proof fn lemma_char_seq_renders(items: Seq<ValueView>, texts: Seq<Seq<char>>)
    requires
        forall|i: int| 0 <= i < items.len() ==> (#[trigger] items[i]) is Char,
    ensures
        seq_renders(items, texts).0.len() == items.len(),
        forall|i: int|
            0 <= i < items.len() ==> seq_renders(items, texts).0[i] == seq![
                items[i]->Char_0],
        seq_renders(items, texts).1 == texts,
    decreases items,
{
    if items.len() > 0 {
        assert(forall|i: int|
            0 <= i < items.drop_first().len() ==> (#[trigger] items.drop_first()[i])
                == items[i + 1]);
        lemma_char_seq_renders(items.drop_first(), texts);
        assert(spec_render(items[0], texts) == (seq![items[0]->Char_0], texts));
        assert forall|i: int|
            0 <= i < items.len() implies seq_renders(items, texts).0[i] == seq![
            items[i]->Char_0] by {
            if i > 0 {
                assert(seq_renders(items, texts).0[i] == seq_renders(
                    items.drop_first(),
                    texts,
                ).0[i - 1]);
            }
        }
    }
}

proof fn lemma_join_singletons(parts: Seq<Seq<char>>, s: Seq<char>)
    requires
        parts.len() == s.len(),
        s.len() > 0,
        forall|i: int| 0 <= i < parts.len() ==> #[trigger] parts[i] == seq![s[i]],
    ensures
        join_texts(parts, Seq::<char>::empty()) == s,
    decreases parts,
{
    if parts.len() == 1 {
        assert(parts[0] == seq![s[0]]);
        assert(seq![s[0]] =~= s);
    } else {
        assert(forall|i: int|
            0 <= i < parts.drop_first().len() ==> (#[trigger] parts.drop_first()[i])
                == parts[i + 1]);
        assert forall|i: int|
            0 <= i < parts.drop_first().len() implies #[trigger] parts.drop_first()[i]
            == seq![s.drop_first()[i]] by {
            assert(parts[i + 1] == seq![s[i + 1]]);
            assert(s.drop_first()[i] == s[i + 1]);
        }
        lemma_join_singletons(parts.drop_first(), s.drop_first());
        assert(join_texts(parts, Seq::<char>::empty()) == parts[0]
            + Seq::<char>::empty() + join_texts(parts.drop_first(), Seq::<char>::empty()));
        assert(seq![s[0]] + Seq::<char>::empty() + s.drop_first() =~= s);
    }
}

/// Printing reverses building for strings: a nonempty string value — the
/// result of evaluating a string literal — renders back as exactly its
/// own characters, with no brackets or quotes. (The empty string value
/// is the one exception: holding no chars, it prints as the empty list.)
pub proof fn lemma_string_render_round_trip(v: ValueView, s: Seq<char>)
    requires
        is_char_list_of(v, s),
        s.len() > 0,
    ensures
        spec_render(v, Seq::<Seq<char>>::empty()).0 == s,
{
    match v {
        ValueView::List { items, spread } => {
            lemma_char_seq_renders(items, Seq::<Seq<char>>::empty());
            let parts = seq_renders(items, Seq::<Seq<char>>::empty()).0;
            assert forall|i: int| 0 <= i < parts.len() implies #[trigger] parts[i]
                == seq![s[i]] by {
                assert(items[i]->Char_0 == s[i]);
            }
            lemma_join_singletons(parts, s);
        }
        _ => {}
    }
}

} // verus!
