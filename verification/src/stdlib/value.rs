use vstd::prelude::*;

use crate::value::{Value, ValueType, ValueView, Span};
use crate::typing::spec_value_type;
use crate::cast::{CastOutcome, cast_outcome_view, cast_matches};
use crate::eval::{Error, ErrorKind};

verus! {

/// The stable keys under which the host registers this package's
/// callables as `System` values.
pub const TYPE_KEY: u64 = 11;

pub const TO_KEY: u64 = 12;

/// The value package: the reified type of a value, and casting.
pub fn package() -> (r: crate::stdlib::io::Package)
    ensures
        r.name@ == seq!['v', 'a', 'l', 'u', 'e'],
        r.definitions@.len() == 2,
        r.definitions@[0].0@ == seq!['t', 'y', 'p', 'e'],
        r.definitions@[0].1@ == ValueView::System(TYPE_KEY as u64),
        r.definitions@[1].0@ == seq!['t', 'o'],
        r.definitions@[1].1@ == ValueView::System(TO_KEY as u64),
{
    let mut defs: Vec<(Vec<char>, Value)> = Vec::new();
    let tn: Vec<char> = vec!['t', 'y', 'p', 'e'];
    defs.push((tn, Value::System(TYPE_KEY)));
    let on: Vec<char> = vec!['t', 'o'];
    defs.push((on, Value::System(TO_KEY)));
    let name: Vec<char> = vec!['v', 'a', 'l', 'u', 'e'];
    proof {
        assert(name@ =~= seq!['v', 'a', 'l', 'u', 'e']);
        assert(defs@[0].0@ =~= seq!['t', 'y', 'p', 'e']);
        assert(defs@[1].0@ =~= seq!['t', 'o']);
    }
    crate::stdlib::io::Package { name, definitions: defs }
}

/// `type(*)`: the reified type descriptor of its single argument.
pub struct Type;

impl Type {
    pub fn call(args: &Vec<Value>, span: Span) -> (r: Result<Value, Error>)
        ensures
            args@.len() == 1 ==> (r matches Ok(v) && v@ == spec_value_type(args@[0]@)),
            args@.len() != 1 ==> (r matches Err(e) && e.span == span && e.cause is None
                && (e.kind matches ErrorKind::ArityOrSignatureMismatch { expected }
                && expected@ == seq!['(', '*', ')'])),
    {
        if args.len() == 1 {
            Ok(args[0].value_type())
        } else {
            let expected: Vec<char> = vec!['(', '*', ')'];
            proof {
                assert(expected@ =~= seq!['(', '*', ')']);
            }
            Err(Error::from_span(span, ErrorKind::ArityOrSignatureMismatch { expected }))
        }
    }
}

/// What a `to` call comes to: an argument-shape failure, or the cast.
pub enum ToCallStep {
    Rejected(Error),
    Cast(CastOutcome),
}

/// The shape `to` requires of its second argument: a type descriptor — a
/// reified type, or a list of exactly one reified type.
pub open spec fn is_type_descriptor(t: ValueView) -> bool {
    match t {
        ValueView::Type(_) => true,
        ValueView::List { items, .. } => items.len() == 1 && items[0] is Type,
        _ => false,
    }
}

/// `to(*, T)`: casts the first argument to the type named by the second.
/// A failed cast is reported by the host with `cast_failure`.
pub struct To;

impl To {
    pub fn call(args: Vec<Value>, span: Span) -> (r: ToCallStep)
        ensures
            args@.len() == 2 && is_type_descriptor(args@[1]@) ==> (r
                matches ToCallStep::Cast(o) && cast_matches(
                args@[0]@,
                args@[1]@,
                cast_outcome_view(o),
            )),
            !(args@.len() == 2 && is_type_descriptor(args@[1]@)) ==> (r
                matches ToCallStep::Rejected(e) && e.span == span && e.cause is None && (
            e.kind matches ErrorKind::ArityOrSignatureMismatch { expected } && expected@
                == seq!['(', '*', ',', ' ', 'T', ')'])),
    {
        let mut args = args;
        if args.len() == 2 {
            let shape_ok = match &args[1] {
                Value::Type(_) => true,
                Value::List { items, .. } => {
                    proof {
                        crate::value::lemma_views_of(items@);
                        if items@.len() > 0 {
                            assert(crate::value::views_of(items@)[0]
                                == crate::value::view_of(items@[0]));
                        }
                    }
                    items.len() == 1 && matches!(&items[0], Value::Type(_))
                }
                _ => false,
            };
            proof {
                assert(shape_ok == is_type_descriptor(args@[1]@));
            }
            if shape_ok {
                let a = args.remove(0);
                let t = args.remove(0);
                return ToCallStep::Cast(a.to(&t));
            }
        }
        let expected: Vec<char> = vec!['(', '*', ',', ' ', 'T', ')'];
        proof {
            assert(expected@ =~= seq!['(', '*', ',', ' ', 'T', ')']);
        }
        ToCallStep::Rejected(
            Error::from_span(span, ErrorKind::ArityOrSignatureMismatch { expected }),
        )
    }

    /// The error a failed cast reports: the value's type and the
    /// attempted target, for the host to render.
    pub fn cast_failure(from_type: Value, target: Value, span: Span) -> (r: Error)
        ensures
            r.span == span,
            r.cause is None,
            r.kind matches ErrorKind::CastFailure { from, to } && from == from_type && to
                == target,
    {
        Error::from_span(span, ErrorKind::CastFailure { from: from_type, to: target })
    }
}

} // verus!
