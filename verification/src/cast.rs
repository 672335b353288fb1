use vstd::prelude::*;

use crate::value::{Value, ValueType, ValueView, view_of, views_of, lemma_views_of};
use crate::typing::spec_value_type;
use crate::equality::{spec_eq, val_eq};
use crate::render::{spec_render, int_text, render_plain};

verus! {

pub const HALF: u128 = 0x8000_0000_0000_0000_0000_0000_0000_0000;

pub open spec fn is_digit(c: char) -> bool {
    48 <= c as u32 <= 57
}

/// The number named by a run of decimal digits, most significant first.
pub open spec fn digits_value(s: Seq<char>) -> int
    decreases s,
{
    if s.len() == 0 {
        0
    } else {
        digits_value(s.drop_last()) * 10 + (s.last() as u32 - 48)
    }
}

pub open spec fn all_digits(s: Seq<char>) -> bool {
    forall|i: int| 0 <= i < s.len() ==> is_digit(s[i])
}

/// Standard lexical parse of a machine integer: an optional sign, then
/// one or more digits; fails on anything else and on overflow.
pub open spec fn parse_int_spec(s: Seq<char>) -> Option<i128> {
    if s.len() == 0 {
        None
    } else {
        let neg = s[0] == '-';
        let ds = if s[0] == '-' || s[0] == '+' {
            s.drop_first()
        } else {
            s
        };
        if ds.len() == 0 || !all_digits(ds) {
            None
        } else {
            let v = if neg {
                -digits_value(ds)
            } else {
                digits_value(ds)
            };
            if i128::MIN <= v <= i128::MAX {
                Some(v as i128)
            } else {
                None
            }
        }
    }
}

proof fn lemma_digits_value_nonneg(s: Seq<char>)
    requires
        all_digits(s),
    ensures
        digits_value(s) >= 0,
    decreases s,
{
    if s.len() > 0 {
        assert(all_digits(s.drop_last())) by {
            assert(forall|i: int|
                0 <= i < s.drop_last().len() ==> s.drop_last()[i] == s[i]);
        }
        lemma_digits_value_nonneg(s.drop_last());
    }
}

proof fn lemma_digits_value_grows(s: Seq<char>, k: int)
    requires
        all_digits(s),
        0 <= k <= s.len(),
    ensures
        digits_value(s) >= digits_value(s.take(k)),
    decreases s.len() - k,
{
    assert(all_digits(s.take(k))) by {
        assert(forall|i: int| 0 <= i < k ==> s.take(k)[i] == s[i]);
    }
    if k < s.len() {
        lemma_digits_value_grows(s, k + 1);
        assert(s.take(k + 1).drop_last() =~= s.take(k));
        assert(s.take(k + 1).last() == s[k]);
        lemma_digits_value_nonneg(s.take(k));
        assert(digits_value(s.take(k + 1)) == digits_value(s.take(k)) * 10 + (s[k] as u32
            - 48));
    } else {
        assert(s.take(k) =~= s);
    }
}

/// Parses decimal text into a machine integer, exactly as the standard
/// lexical form admits it.
pub fn parse_int_chars(s: &Vec<char>) -> (r: Option<i128>)
    ensures
        r == parse_int_spec(s@),
{
    if s.len() == 0 {
        return None;
    }
    let first = s[0];
    let start: usize = if first == '-' || first == '+' {
        1
    } else {
        0
    };
    let neg = first == '-';
    if s.len() == start {
        return None;
    }
    let ghost ds = s@.subrange(start as int, s@.len() as int);
    proof {
        if start == 1 {
            assert(ds =~= s@.drop_first());
        } else {
            assert(ds =~= s@);
        }
    }
    let mut acc: u128 = 0;
    let mut over = false;
    let mut k: usize = start;
    while k < s.len()
        invariant
            start <= k <= s@.len(),
            start <= 1,
            s@.len() > start,
            (s@[0] == '-' || s@[0] == '+') <==> start == 1,
            neg == (s@[0] == '-'),
            ds == s@.subrange(start as int, s@.len() as int),
            ds == (if s@[0] == '-' || s@[0] == '+' {
                s@.drop_first()
            } else {
                s@
            }),
            ds.len() == s@.len() - start,
            all_digits(ds.take(k - start)),
            !over ==> acc == digits_value(ds.take(k - start)),
            over ==> digits_value(ds.take(k - start)) > u128::MAX,
            digits_value(ds.take(k - start)) >= 0,
        decreases s@.len() - k,
    {
        let c = s[k];
        let d = c as u32;
        if d < 48 || d > 57 {
            proof {
                assert(ds[k - start] == s@[k as int]);
                assert(!is_digit(ds[k - start]));
                assert(!all_digits(ds));
            }
            return None;
        }
        let dv: u128 = (d - 48) as u128;
        let ghost pk = ds.take(k - start);
        proof {
            assert(ds.take(k + 1 - start).drop_last() =~= pk);
            assert(ds.take(k + 1 - start).last() == ds[k - start]);
            assert(ds[k - start] == s@[k as int]);
            assert(s@[k as int] as u32 == d);
            assert(is_digit(s@[k as int]));
            assert(digits_value(ds.take(k + 1 - start)) == digits_value(pk) * 10 + (
            s@[k as int] as u32 - 48));
            assert(forall|i: int| 0 <= i < pk.len() ==> pk[i] == ds[i]);
            assert(all_digits(ds.take(k + 1 - start))) by {
                assert(forall|i: int|
                    0 <= i < k + 1 - start ==> ds.take(k + 1 - start)[i] == ds[i]);
                assert(forall|i: int| 0 <= i < k - start ==> is_digit(ds[i]));
            }
        }
        if !over {
            if acc > (u128::MAX - dv) / 10 {
                over = true;
                proof {
                    assert(acc * 10 + dv > u128::MAX) by (nonlinear_arith)
                        requires
                            acc > (u128::MAX - dv) / 10,
                            dv < 10,
                    ;
                }
            } else {
                acc = acc * 10 + dv;
            }
        } else {
            proof {
                assert(digits_value(ds.take(k + 1 - start)) >= digits_value(pk));
            }
        }
        k = k + 1;
    }
    proof {
        assert(ds.take(k - start) =~= ds);
    }
    if over {
        return None;
    }
    if neg {
        if acc > HALF {
            None
        } else if acc == HALF {
            Some(i128::MIN)
        } else {
            Some(-(acc as i128))
        }
    } else {
        if acc > HALF - 1 {
            None
        } else {
            Some(acc as i128)
        }
    }
}

/// What a cast evaluates to: a finished optional value (casts outside the
/// defined rules yield none), or a float step for the host: printing a
/// float whose text then becomes a char list, parsing text as a float,
/// widening an integer to a float, or truncating a float to an integer
/// (none when the float has no integral image in range).
pub enum CastOutcome {
    Done(Option<Value>),
    FloatText(u64),
    ParseFloat(Vec<char>),
    FloatOfInt(i128),
    IntOfFloat(u64),
}

pub enum CastSpecOutcome {
    Done(Option<ValueView>),
    FloatText(u64),
    ParseFloat(Seq<char>),
    FloatOfInt(i128),
    IntOfFloat(u64),
}

pub open spec fn cast_outcome_view(o: CastOutcome) -> CastSpecOutcome {
    match o {
        CastOutcome::Done(None) => CastSpecOutcome::Done(None),
        CastOutcome::Done(Some(v)) => CastSpecOutcome::Done(Some(view_of(v))),
        CastOutcome::FloatText(b) => CastSpecOutcome::FloatText(b),
        CastOutcome::ParseFloat(s) => CastSpecOutcome::ParseFloat(s@),
        CastOutcome::FloatOfInt(i) => CastSpecOutcome::FloatOfInt(i),
        CastOutcome::IntOfFloat(b) => CastSpecOutcome::IntOfFloat(b),
    }
}

/// `v` is the string value spelling `s`: a spread-free list holding one
/// `Char` per element of `s`, in order.
pub open spec fn is_char_list_of(v: ValueView, s: Seq<char>) -> bool {
    match v {
        ValueView::List { items, spread } => !spread && items.len() == s.len()
            && (forall|i: int|
            0 <= i < items.len() ==> (#[trigger] items[i]) is Char && items[i]->Char_0
                == s[i]),
        _ => false,
    }
}

/// The single-element list-of-char type descriptor, the inferred type of
/// every nonempty string value.
pub open spec fn char_list_type() -> ValueView {
    ValueView::List { items: seq![ValueView::Type(ValueType::Char)], spread: false }
}

/// The conversion rules of the language, over the model. The identity
/// short-circuit uses the wildcard-aware equality; a list-of-char target
/// stringifies numbers and chars; a char-list source parses into scalars;
/// the mono-type numeric and char casts convert; everything else is
/// undefined and yields none.
pub open spec fn cast_matches(a: ValueView, t: ValueView, o: CastSpecOutcome) -> bool {
    if spec_eq(spec_value_type(a), t, Seq::<bool>::empty()).0 {
        o == CastSpecOutcome::Done(Some(a))
    } else {
        match t {
            ValueView::List { items, .. } => {
                if items[0] matches ValueView::Type(ValueType::Char) {
                    match a {
                        ValueView::Int(i) => o matches CastSpecOutcome::Done(Some(v))
                            && is_char_list_of(v, int_text(i as int)),
                        ValueView::Float(b) => o == CastSpecOutcome::FloatText(b),
                        ValueView::Char(c) => o matches CastSpecOutcome::Done(Some(v))
                            && is_char_list_of(v, seq![c]),
                        _ => o == CastSpecOutcome::Done(None),
                    }
                } else {
                    o == CastSpecOutcome::Done(None)
                }
            }
            ValueView::Type(tag) => {
                if a matches ValueView::List { .. } && spec_eq(
                    spec_value_type(a),
                    char_list_type(),
                    Seq::<bool>::empty(),
                ).0 {
                    let text = spec_render(a, Seq::<Seq<char>>::empty()).0;
                    match tag {
                        ValueType::Unit => o == CastSpecOutcome::Done(
                            Some(ValueView::Unit),
                        ),
                        ValueType::Integer => o == CastSpecOutcome::Done(
                            match parse_int_spec(text) {
                                Some(i) => Some(ValueView::Int(i)),
                                None => None,
                            },
                        ),
                        ValueType::Float => o == CastSpecOutcome::ParseFloat(text),
                        ValueType::Char => {
                            if text.len() == 1 {
                                o matches CastSpecOutcome::Done(Some(v)) && v is Char
                                    && v->Char_0 == text[0]
                            } else {
                                o == CastSpecOutcome::Done(None)
                            }
                        }
                        ValueType::Boolean => o == CastSpecOutcome::Done(
                            if text == seq!['T', 'r', 'u', 'e'] {
                                Some(ValueView::Bool(true))
                            } else if text == seq!['F', 'a', 'l', 's', 'e'] {
                                Some(ValueView::Bool(false))
                            } else {
                                None
                            },
                        ),
                        _ => o == CastSpecOutcome::Done(None),
                    }
                } else {
                    match (a, tag) {
                        (ValueView::Int(i), ValueType::Float) => o
                            == CastSpecOutcome::FloatOfInt(i),
                        (ValueView::Float(b), ValueType::Integer) => o
                            == CastSpecOutcome::IntOfFloat(b),
                        (ValueView::Int(i), ValueType::Char) => {
                            if 0 <= i < 0xD800 || 0xE000 <= i <= 0x10FFFF {
                                o == CastSpecOutcome::Done(
                                    Some(ValueView::Char(char_of_code(i as u32))),
                                )
                            } else {
                                o == CastSpecOutcome::Done(None)
                            }
                        }
                        (ValueView::Char(c), ValueType::Integer) => o
                            == CastSpecOutcome::Done(Some(ValueView::Int(c as u32 as i128))),
                        _ => o == CastSpecOutcome::Done(None),
                    }
                }
            }
            _ => o == CastSpecOutcome::Done(None),
        }
    }
}

pub uninterp spec fn char_of_code(u: u32) -> char;

/// Relies on char::from_u32: yields the scalar value with the given code
/// point exactly when the code is not a surrogate and at most 0x10FFFF.
#[verifier::external_body]
fn char_from_u32(u: u32) -> (r: Option<char>)
    ensures
        r is Some <==> (u < 0xD800 || (0xE000 <= u <= 0x10FFFF)),
        r matches Some(c) ==> c == char_of_code(u) && c as u32 == u,
{
    char::from_u32(u)
}

/// Hands a char back unchanged. Reading a char out of a vector leaves its
/// scalar-range typing behind in the verifier; returning it from a
/// function restores it, so values built from such chars verify.
fn copy_char(c: char) -> (r: char)
    ensures
        r == c,
{
    c
}

/// Builds the string value of a run of chars.
pub fn char_list_value(s: &Vec<char>) -> (r: Value)
    ensures
        is_char_list_of(r@, s@),
{
    let mut items: Vec<Value> = Vec::new();
    let mut k: usize = 0;
    while k < s.len()
        invariant
            k <= s@.len(),
            items@.len() == k,
            forall|i: int|
                0 <= i < k ==> (#[trigger] items@[i]) is Char && items@[i]->Char_0
                    == s@[i],
        decreases s@.len() - k,
    {
        let c = copy_char(s[k]);
        items.push(Value::Char(c));
        k = k + 1;
    }
    proof {
        lemma_views_of(items@);
        assert forall|i: int|
            0 <= i < s@.len() implies (#[trigger] views_of(items@)[i]) is Char && views_of(
            items@,
        )[i]->Char_0 == s@[i] by {
            assert(items@[i] is Char && items@[i]->Char_0 == s@[i]);
            assert(views_of(items@)[i] == view_of(items@[i]));
        }
    }
    Value::List { items, spread: false }
}

impl Value {
    /// Casts this value to the given type descriptor (`requires` keeps out
    /// the empty list target, which names no type).
    pub fn to(self, vt: &Value) -> (r: CastOutcome)
        requires
            vt@ matches ValueView::List { items, .. } ==> items.len() > 0,
        ensures
            cast_matches(self@, vt@, cast_outcome_view(r)),
    {
        let arg_type = self.value_type();
        if val_eq(&arg_type, vt) {
            return CastOutcome::Done(Some(self));
        }
        match vt {
            Value::List { items: t_items, .. } => {
                proof {
                    lemma_views_of(t_items@);
                }
                if matches!(&t_items[0], Value::Type(ValueType::Char)) {
                    match self {
                        Value::Int(i) => {
                            let text = crate::render::int_text_exec(i);
                            CastOutcome::Done(Some(char_list_value(&text)))
                        }
                        Value::Float(b) => CastOutcome::FloatText(b),
                        Value::Char(c) => {
                            let text: Vec<char> = vec![c];
                            proof {
                                assert(text@ =~= seq![c]);
                            }
                            CastOutcome::Done(Some(char_list_value(&text)))
                        }
                        _ => CastOutcome::Done(None),
                    }
                } else {
                    CastOutcome::Done(None)
                }
            }
            Value::Type(tag) => {
                let probe = Value::List {
                    items: vec![Value::Type(ValueType::Char)],
                    spread: false,
                };
                proof {
                    lemma_views_of(probe->List_items@);
                    assert(views_of(probe->List_items@) =~= seq![
                        ValueView::Type(ValueType::Char)]);
                }
                if matches!(&self, Value::List { .. }) && val_eq(&arg_type, &probe) {
                    let text = render_plain(&self);
                    match tag {
                        ValueType::Unit => CastOutcome::Done(Some(Value::Unit)),
                        ValueType::Integer => {
                            match parse_int_chars(&text) {
                                Some(i) => CastOutcome::Done(Some(Value::Int(i))),
                                None => CastOutcome::Done(None),
                            }
                        }
                        ValueType::Float => CastOutcome::ParseFloat(text),
                        ValueType::Char => {
                            if text.len() == 1 {
                                CastOutcome::Done(Some(Value::Char(copy_char(text[0]))))
                            } else {
                                CastOutcome::Done(None)
                            }
                        }
                        ValueType::Boolean => {
                            if is_true_text(&text) {
                                CastOutcome::Done(Some(Value::Bool(true)))
                            } else if is_false_text(&text) {
                                CastOutcome::Done(Some(Value::Bool(false)))
                            } else {
                                CastOutcome::Done(None)
                            }
                        }
                        _ => CastOutcome::Done(None),
                    }
                } else {
                    match (self, tag) {
                        (Value::Int(i), ValueType::Float) => CastOutcome::FloatOfInt(i),
                        (Value::Float(b), ValueType::Integer) => CastOutcome::IntOfFloat(
                            b,
                        ),
                        (Value::Int(i), ValueType::Char) => {
                            if 0 <= i && i <= 0x10FFFF {
                                match char_from_u32(i as u32) {
                                    Some(c) => CastOutcome::Done(Some(Value::Char(c))),
                                    None => CastOutcome::Done(None),
                                }
                            } else {
                                CastOutcome::Done(None)
                            }
                        }
                        (Value::Char(c), ValueType::Integer) => CastOutcome::Done(
                            Some(Value::Int(c as u32 as i128)),
                        ),
                        _ => CastOutcome::Done(None),
                    }
                }
            }
            _ => CastOutcome::Done(None),
        }
    }
}

fn is_true_text(s: &Vec<char>) -> (r: bool)
    ensures
        r == (s@ == seq!['T', 'r', 'u', 'e']),
{
    let r = s.len() == 4 && s[0] == 'T' && s[1] == 'r' && s[2] == 'u' && s[3] == 'e';
    proof {
        if r {
            assert(s@ =~= seq!['T', 'r', 'u', 'e']);
        }
    }
    r
}

fn is_false_text(s: &Vec<char>) -> (r: bool)
    ensures
        r == (s@ == seq!['F', 'a', 'l', 's', 'e']),
{
    let r = s.len() == 5 && s[0] == 'F' && s[1] == 'a' && s[2] == 'l' && s[3] == 's'
        && s[4] == 'e';
    proof {
        if r {
            assert(s@ =~= seq!['F', 'a', 'l', 's', 'e']);
        }
    }
    r
}

proof fn lemma_eq_reflexive_on_type_shapes(t: ValueView, ans: Seq<bool>)
    requires
        crate::typing::is_type_shape(t),
    ensures
        spec_eq(t, t, ans) == (true, ans),
    decreases t,
{
    match t {
        ValueView::List { items, spread } => {
            crate::typing::lemma_all_type_shapes(items);
            lemma_seq_eq_reflexive_on_type_shapes(items, ans);
        }
        _ => {}
    }
}

proof fn lemma_seq_eq_reflexive_on_type_shapes(items: Seq<ValueView>, ans: Seq<bool>)
    requires
        forall|i: int| 0 <= i < items.len() ==> crate::typing::is_type_shape(items[i]),
    ensures
        crate::equality::seq_spec_eq(items, items, ans) == (true, ans),
    decreases items,
{
    if items.len() > 0 {
        match items[0] {
            ValueView::List { items: inner, spread } => {
                crate::typing::lemma_all_type_shapes(inner);
            }
            _ => {}
        }
        lemma_eq_reflexive_on_type_shapes(items[0], ans);
        assert(forall|i: int|
            0 <= i < items.drop_first().len() ==> crate::typing::is_type_shape(
                #[trigger] items.drop_first()[i],
            ));
        lemma_seq_eq_reflexive_on_type_shapes(items.drop_first(), ans);
    }
}

/// The identity short-circuit of casting: a value cast to its own type
/// descriptor comes back unchanged, whatever the value.
pub proof fn lemma_cast_identity(v: ValueView)
    ensures
        cast_matches(v, spec_value_type(v), CastSpecOutcome::Done(Some(v))),
{
    crate::typing::lemma_value_type_shape(v);
    lemma_eq_reflexive_on_type_shapes(spec_value_type(v), Seq::<bool>::empty());
}

} // verus!
