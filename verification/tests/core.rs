use nois_core::cast::CastOutcome;
use nois_core::equality::val_eq;
use nois_core::eval::{eval_operand, EvalStep, Operand, PatternItem, Scope};
use nois_core::ops::{add, neg, not, partial_cmp, rem, sub, CmpOutcome, OpKind, OpOutcome, ValueOrder};
use nois_core::render::render_plain;
use nois_core::stdlib::io::{Args, Println};
use nois_core::stdlib::value::{To, ToCallStep, Type};
use nois_core::value::{Binding, Definition, FunctionDef, Span, Spanned, Value, ValueType};

fn span() -> Span {
    Span { start: 0, end: 0 }
}

fn ints(v: &[i128]) -> Vec<Value> {
    v.iter().map(|i| Value::Int(*i)).collect()
}

fn list(items: Vec<Value>, spread: bool) -> Value {
    Value::List { items, spread }
}

fn as_list(v: Value) -> (Vec<Value>, bool) {
    match v {
        Value::List { items, spread } => (items, spread),
        _ => panic!("not a list"),
    }
}

fn int_of(v: &Value) -> i128 {
    match v {
        Value::Int(i) => *i,
        _ => panic!("not an integer"),
    }
}

fn text_of(v: &Value) -> String {
    render_plain(v).iter().collect()
}

/// Completes a cast outcome the way the host does, with real float
/// arithmetic.
fn finish_cast(o: CastOutcome) -> Option<Value> {
    match o {
        CastOutcome::Done(r) => r,
        CastOutcome::FloatText(bits) => {
            let text: Vec<char> = format!("{}", f64::from_bits(bits)).chars().collect();
            Some(nois_core::cast::char_list_value(&text))
        }
        CastOutcome::ParseFloat(text) => {
            let s: String = text.iter().collect();
            s.parse::<f64>().ok().map(|f| Value::Float(f.to_bits()))
        }
        CastOutcome::FloatOfInt(i) => Some(Value::Float((i as f64).to_bits())),
        CastOutcome::IntOfFloat(bits) => {
            <i128 as num::NumCast>::from(f64::from_bits(bits)).map(Value::Int)
        }
    }
}

#[test]
fn cast_truncates_toward_zero() {
    let r = finish_cast(Value::Float((5.9f64).to_bits()).to(&Value::Type(ValueType::Integer)));
    assert_eq!(int_of(&r.unwrap()), 5);
    let r = finish_cast(Value::Float((-5.9f64).to_bits()).to(&Value::Type(ValueType::Integer)));
    assert_eq!(int_of(&r.unwrap()), -5);
}

#[test]
fn cast_widens_integer_to_float() {
    let r = finish_cast(Value::Int(5).to(&Value::Type(ValueType::Float))).unwrap();
    match r {
        Value::Float(bits) => assert_eq!(f64::from_bits(bits), 5.0),
        _ => panic!("expected a float"),
    }
}

#[test]
fn string_literal_round_trip() {
    let node = Spanned { span: span(), node: Operand::String("abc".chars().collect()) };
    let v = match eval_operand(&node) {
        EvalStep::Done(v) => v,
        _ => panic!("literal must evaluate"),
    };
    let (items, spread) = as_list(v);
    assert!(!spread);
    let chars: Vec<char> = items
        .iter()
        .map(|c| match c {
            Value::Char(c) => *c,
            _ => panic!("expected chars"),
        })
        .collect();
    assert_eq!(chars, vec!['a', 'b', 'c']);
    let rebuilt = list(items, false);
    assert_eq!(text_of(&rebuilt), "abc");
}

#[test]
fn splice_flattens_one_level() {
    let elems = vec![
        Value::Int(1),
        list(ints(&[2, 3]), true),
        list(ints(&[4, 5]), false),
    ];
    let (items, spread) = as_list(nois_core::eval::splice_list(elems));
    assert!(!spread);
    assert_eq!(items.len(), 4);
    assert_eq!(int_of(&items[0]), 1);
    assert_eq!(int_of(&items[1]), 2);
    assert_eq!(int_of(&items[2]), 3);
    let (inner, inner_spread) = match &items[3] {
        Value::List { items, spread } => (items, *spread),
        _ => panic!("expected a nested list"),
    };
    assert!(!inner_spread);
    assert_eq!(inner.len(), 2);
    assert_eq!(int_of(&inner[0]), 4);
    assert_eq!(int_of(&inner[1]), 5);
}

#[test]
fn add_concatenates_matching_flags() {
    let r = add(list(ints(&[1, 2]), false), list(ints(&[3]), false));
    match r {
        OpOutcome::Done(v) => {
            let (items, spread) = as_list(v);
            assert!(!spread);
            let got: Vec<i128> = items.iter().map(int_of).collect();
            assert_eq!(got, vec![1, 2, 3]);
        }
        _ => panic!("expected a finished list"),
    }
}

#[test]
fn add_nests_mismatched_flags() {
    let r = add(list(ints(&[1]), true), list(ints(&[2]), false));
    match r {
        OpOutcome::Done(v) => {
            let (items, spread) = as_list(v);
            assert!(!spread);
            assert_eq!(items.len(), 2);
            assert_eq!(int_of(&items[0]), 1);
            let (inner, inner_spread) = match &items[1] {
                Value::List { items, spread } => (items, *spread),
                _ => panic!("expected the whole right list nested"),
            };
            assert!(!inner_spread);
            assert_eq!(inner.len(), 1);
            assert_eq!(int_of(&inner[0]), 2);
        }
        _ => panic!("expected a finished list"),
    }
}

#[test]
fn add_scalar_onto_list() {
    let r = add(list(ints(&[1, 2]), true), Value::Int(3));
    match r {
        OpOutcome::Done(v) => {
            let (items, spread) = as_list(v);
            assert!(!spread);
            let got: Vec<i128> = items.iter().map(int_of).collect();
            assert_eq!(got, vec![1, 2, 3]);
        }
        _ => panic!("expected a finished list"),
    }
    let r = add(Value::Int(3), list(ints(&[1, 2]), false));
    match r {
        OpOutcome::Done(v) => {
            let (items, spread) = as_list(v);
            assert!(!spread);
            let got: Vec<i128> = items.iter().map(int_of).collect();
            assert_eq!(got, vec![3, 1, 2]);
        }
        _ => panic!("expected a finished list"),
    }
}

#[test]
fn wildcard_type_equality() {
    assert!(val_eq(&Value::Type(ValueType::Any), &Value::Type(ValueType::Integer)));
    assert!(val_eq(
        &Value::Type(ValueType::Any),
        &list(vec![Value::Type(ValueType::Integer)], false),
    ));
    assert!(!val_eq(&Value::Type(ValueType::Integer), &Value::Type(ValueType::Float)));
    assert!(!val_eq(&Value::Type(ValueType::Any), &Value::Int(1)));
}

#[test]
fn list_equality_requires_flag_match() {
    assert!(!val_eq(&list(ints(&[1]), true), &list(ints(&[1]), false)));
    assert!(val_eq(&list(ints(&[1]), true), &list(ints(&[1]), true)));
}

#[test]
fn identifier_resolution_realizes_binding() {
    let name = String::from("x");
    let mut scope = Scope {
        bindings: vec![Binding { name: name.clone(), definition: Definition::Deferred(7) }],
    };
    let mut evaluations = 0;
    // The deferred expression is evaluated through the external evaluator;
    // here the test plays that role and counts how often it runs.
    let mut resolve = |scope: &mut Scope| -> Value {
        match scope.lookup(&name) {
            Some(Definition::Realized(Value::Int(i))) => Value::Int(*i),
            Some(Definition::Deferred(_)) => {
                evaluations += 1;
                let v = Value::Int(42);
                scope.realize_binding(&name, Value::Int(42));
                v
            }
            _ => panic!("binding must exist"),
        }
    };
    let first = resolve(&mut scope);
    assert_eq!(int_of(&first), 42);
    let second = resolve(&mut scope);
    assert_eq!(int_of(&second), 42);
    assert_eq!(evaluations, 1);
    match scope.lookup(&name) {
        Some(Definition::Realized(Value::Int(42))) => {}
        _ => panic!("the binding must hold the realized value"),
    }
}

#[test]
fn rendering_tokens() {
    assert_eq!(text_of(&Value::Unit), "()");
    assert_eq!(text_of(&Value::Bool(true)), "True");
    assert_eq!(text_of(&Value::Bool(false)), "False");
    assert_eq!(text_of(&Value::Int(-17)), "-17");
    assert_eq!(text_of(&Value::Char('x')), "x");
    assert_eq!(text_of(&list(ints(&[1, 2]), false)), "[1, 2]");
    assert_eq!(text_of(&list(ints(&[1]), true)), "..[1]");
    assert_eq!(text_of(&list(vec![], false)), "[]");
    assert_eq!(text_of(&Value::Func(FunctionDef { key: 1 })), "<fn>");
    assert_eq!(text_of(&Value::System(9)), "<system>");
    assert_eq!(text_of(&Value::Type(ValueType::Integer)), "Integer");
}

#[test]
fn cast_between_text_and_scalars() {
    let int_type = Value::Type(ValueType::Integer);
    let string_42 = nois_core::cast::char_list_value(&"42".chars().collect());
    let r = finish_cast(string_42.to(&int_type)).unwrap();
    assert_eq!(int_of(&r), 42);

    let junk = nois_core::cast::char_list_value(&"4x2".chars().collect());
    assert!(finish_cast(junk.to(&int_type)).is_none());

    let bool_type = Value::Type(ValueType::Boolean);
    let t = nois_core::cast::char_list_value(&"True".chars().collect());
    match finish_cast(t.to(&bool_type)).unwrap() {
        Value::Bool(b) => assert!(b),
        _ => panic!("expected a boolean"),
    }
    let lower = nois_core::cast::char_list_value(&"true".chars().collect());
    assert!(finish_cast(lower.to(&bool_type)).is_none());

    let char_list_type = list(vec![Value::Type(ValueType::Char)], false);
    let shown = finish_cast(Value::Int(15).to(&char_list_type)).unwrap();
    assert_eq!(text_of(&shown), "15");
}

#[test]
fn cast_between_char_and_code_point() {
    let r = finish_cast(Value::Int(65).to(&Value::Type(ValueType::Char))).unwrap();
    match r {
        Value::Char(c) => assert_eq!(c, 'A'),
        _ => panic!("expected a char"),
    }
    // A surrogate code point is not a scalar value.
    assert!(finish_cast(Value::Int(0xD800).to(&Value::Type(ValueType::Char))).is_none());
    let r = finish_cast(Value::Char('A').to(&Value::Type(ValueType::Integer))).unwrap();
    assert_eq!(int_of(&r), 65);
}

#[test]
fn cast_identity_short_circuit() {
    let r = finish_cast(Value::Int(7).to(&Value::Type(ValueType::Integer))).unwrap();
    assert_eq!(int_of(&r), 7);
    // An empty list is list-of-Any, which the wildcard makes a char list;
    // it renders bracketed, so parsing it as a number fails.
    let empty = list(vec![], false);
    assert!(finish_cast(empty.to(&Value::Type(ValueType::Integer))).is_none());
}

#[test]
fn value_type_collapses_uniform_lists() {
    let t = list(ints(&[1, 2, 3]), false).value_type();
    let (items, spread) = as_list(t);
    assert!(!spread);
    assert_eq!(items.len(), 1);
    assert!(matches!(items[0], Value::Type(ValueType::Integer)));

    let mixed = list(vec![Value::Int(1), Value::Bool(true)], false).value_type();
    let (items, _) = as_list(mixed);
    assert_eq!(items.len(), 2);
    assert!(matches!(items[0], Value::Type(ValueType::Integer)));
    assert!(matches!(items[1], Value::Type(ValueType::Boolean)));

    let empty = list(vec![], false).value_type();
    let (items, _) = as_list(empty);
    assert_eq!(items.len(), 1);
    assert!(matches!(items[0], Value::Type(ValueType::Any)));
}

#[test]
fn arithmetic_on_integers() {
    match add(Value::Int(2), Value::Int(3)) {
        OpOutcome::Done(v) => assert_eq!(int_of(&v), 5),
        _ => panic!("expected a finished value"),
    }
    match sub(Value::Int(2), Value::Int(5)) {
        OpOutcome::Done(v) => assert_eq!(int_of(&v), -3),
        _ => panic!("expected a finished value"),
    }
    match rem(Value::Int(-7), Value::Int(2)) {
        OpOutcome::Done(v) => assert_eq!(int_of(&v), -1),
        _ => panic!("expected a finished value"),
    }
}

#[test]
fn operator_mismatches_carry_types() {
    match add(Value::Bool(true), Value::Unit) {
        OpOutcome::Mismatch(e) => {
            assert!(matches!(e.op, OpKind::Add));
            assert_eq!(text_of(&e.lhs_type), "Boolean");
            assert_eq!(text_of(&e.rhs_type.unwrap()), "Unit");
        }
        _ => panic!("expected a mismatch"),
    }
    match neg(Value::Bool(true)) {
        Err(e) => assert!(e.hint_logical_not),
        _ => panic!("negating a boolean must fail"),
    }
    match neg(Value::Unit) {
        Err(e) => assert!(!e.hint_logical_not),
        _ => panic!("negating unit must fail"),
    }
    assert!(not(Value::Int(1)).is_err());
    match not(Value::Bool(true)) {
        Ok(Value::Bool(b)) => assert!(!b),
        _ => panic!("expected the negated boolean"),
    }
    assert!(Value::Bool(true).and(&Value::Int(1)).is_err());
    match Value::Bool(true).and(&Value::Bool(false)) {
        Ok(Value::Bool(b)) => assert!(!b),
        _ => panic!("expected a boolean"),
    }
    match Value::Bool(false).or(&Value::Bool(true)) {
        Ok(Value::Bool(b)) => assert!(b),
        _ => panic!("expected a boolean"),
    }
}

#[test]
fn ordering_of_numbers() {
    match partial_cmp(&Value::Int(1), &Value::Int(2)) {
        CmpOutcome::Done(Some(ValueOrder::Less)) => {}
        _ => panic!("1 orders below 2"),
    }
    match partial_cmp(&Value::Unit, &Value::Int(2)) {
        CmpOutcome::Done(None) => {}
        _ => panic!("unit has no ordering"),
    }
}

#[test]
fn not_evaluable_operands_fail() {
    let node = Spanned { span: span(), node: Operand::Hole };
    match eval_operand(&node) {
        EvalStep::Fail(e) => {
            assert!(matches!(e.kind, nois_core::eval::ErrorKind::NotEvaluable));
            assert!(e.cause.is_none());
        }
        _ => panic!("a hole has no value"),
    }
    let node = Spanned { span: span(), node: Operand::Integer(12) };
    match eval_operand(&node) {
        EvalStep::Done(v) => assert_eq!(int_of(&v), 12),
        _ => panic!("an integer literal evaluates"),
    }
}

#[test]
fn stdlib_type_and_to() {
    let r = Type::call(&vec![Value::Int(1)], span()).unwrap();
    assert!(matches!(r, Value::Type(ValueType::Integer)));
    match Type::call(&vec![], span()) {
        Err(e) => match e.kind {
            nois_core::eval::ErrorKind::ArityOrSignatureMismatch { expected } => {
                let text: String = expected.iter().collect();
                assert_eq!(text, "(*)");
            }
            _ => panic!("expected an arity mismatch"),
        },
        _ => panic!("type() without arguments must fail"),
    }
    match To::call(vec![Value::Int(5), Value::Type(ValueType::Float)], span()) {
        ToCallStep::Cast(o) => match finish_cast(o).unwrap() {
            Value::Float(bits) => assert_eq!(f64::from_bits(bits), 5.0),
            _ => panic!("expected a float"),
        },
        _ => panic!("to(5, Float) is well-shaped"),
    }
    match To::call(vec![Value::Int(5)], span()) {
        ToCallStep::Rejected(e) => match e.kind {
            nois_core::eval::ErrorKind::ArityOrSignatureMismatch { expected } => {
                let text: String = expected.iter().collect();
                assert_eq!(text, "(*, T)");
            }
            _ => panic!("expected an arity mismatch"),
        },
        _ => panic!("to with one argument must be rejected"),
    }
}

#[test]
fn stdlib_io_surface() {
    let pkg = nois_core::stdlib::io::package();
    let name: String = pkg.name.iter().collect();
    assert_eq!(name, "io");
    let names: Vec<String> = pkg.definitions.iter().map(|d| d.0.iter().collect()).collect();
    assert_eq!(names, vec!["println", "eprintln", "debug", "panic", "args"]);

    let mut texts: Vec<Vec<char>> = Vec::new();
    let line = Println::line(&vec![Value::Int(1), Value::Bool(true)], &mut texts);
    let line: String = line.iter().collect();
    assert_eq!(line, "1 True");

    let args = Args::args_value(vec!["ab".chars().collect(), "c".chars().collect()]);
    let (items, spread) = as_list(args);
    assert!(!spread);
    assert_eq!(text_of(&items[0]), "ab");
    assert_eq!(text_of(&items[1]), "c");
    assert!(Args::check_no_args(&vec![], span()).is_ok());
    assert!(Args::check_no_args(&vec![Value::Unit], span()).is_err());

    let vpkg = nois_core::stdlib::value::package();
    let vname: String = vpkg.name.iter().collect();
    assert_eq!(vname, "value");
}

#[test]
fn float_values_flow_through_lists() {
    // Floats are opaque bit patterns to the core; their text comes from
    // the host. A rendered list asks for one text per float, in order.
    let v = list(vec![Value::Float((1.5f64).to_bits()), Value::Int(2)], false);
    let slots = nois_core::render::collect_float_slots(&v);
    assert_eq!(slots.len(), 1);
    let mut texts: Vec<Vec<char>> = slots
        .iter()
        .map(|b| format!("{}", f64::from_bits(*b)).chars().collect())
        .collect();
    let out: String = nois_core::render::render_with(&v, &mut texts).iter().collect();
    assert_eq!(out, "[1.5, 2]");
}

#[test]
fn float_equality_goes_through_queries() {
    let a = Value::Float((1.5f64).to_bits());
    let b = Value::Float((1.5f64).to_bits());
    let queries = nois_core::equality::collect_eq_queries(&a, &b);
    let mut answers: Vec<bool> = queries
        .iter()
        .map(|q| match q {
            nois_core::equality::FloatQuery::FloatFloat(x, y) => {
                f64::from_bits(*x) == f64::from_bits(*y)
            }
            nois_core::equality::FloatQuery::IntFloat(i, x) => {
                (*i as f64) == f64::from_bits(*x)
            }
        })
        .collect();
    assert!(nois_core::equality::val_eq_with(&a, &b, &mut answers));

    let c = Value::Int(2);
    let d = Value::Float((2.0f64).to_bits());
    let queries = nois_core::equality::collect_eq_queries(&c, &d);
    let mut answers: Vec<bool> = queries
        .iter()
        .map(|q| match q {
            nois_core::equality::FloatQuery::FloatFloat(x, y) => {
                f64::from_bits(*x) == f64::from_bits(*y)
            }
            nois_core::equality::FloatQuery::IntFloat(i, x) => {
                (*i as f64) == f64::from_bits(*x)
            }
        })
        .collect();
    assert!(nois_core::equality::val_eq_with(&c, &d, &mut answers));
}

#[test]
fn pattern_items_convert_to_values() {
    match Value::from_pattern(&PatternItem::Integer(9)) {
        Some(v) => assert_eq!(int_of(&v), 9),
        None => panic!("an integer pattern names a value"),
    }
    match Value::from_pattern(&PatternItem::String("hi".chars().collect())) {
        Some(v) => assert_eq!(text_of(&v), "hi"),
        None => panic!("a string pattern names a value"),
    }
    match Value::from_pattern(&PatternItem::Boolean(true)) {
        Some(Value::Bool(b)) => assert!(b),
        _ => panic!("a boolean pattern names a value"),
    }
    assert!(Value::from_pattern(&PatternItem::Hole).is_none());
}

#[test]
fn mixed_float_operators_widen_on_the_left() {
    // The operators try the swapped operand order when the given one has
    // no rule: with a float on the left and an integer on the right, the
    // retried pair puts the widened integer on the left of the
    // subtraction.
    match sub(Value::Float((10.0f64).to_bits()), Value::Int(3)) {
        OpOutcome::FloatOp(OpKind::Sub, nois_core::ops::FloatArg::OfInt(i), nois_core::ops::FloatArg::Bits(b)) => {
            assert_eq!(i, 3);
            assert_eq!((i as f64) - f64::from_bits(b), -7.0);
        }
        _ => panic!("expected a deferred float subtraction"),
    }
}

#[test]
fn cast_text_to_float_parses() {
    let float_type = Value::Type(ValueType::Float);
    let text = nois_core::cast::char_list_value(&"2.5".chars().collect());
    match finish_cast(text.to(&float_type)).unwrap() {
        Value::Float(bits) => assert_eq!(f64::from_bits(bits), 2.5),
        _ => panic!("expected a float"),
    }
    let junk = nois_core::cast::char_list_value(&"2.5.1".chars().collect());
    assert!(finish_cast(junk.to(&float_type)).is_none());
}
