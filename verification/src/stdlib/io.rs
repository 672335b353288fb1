use vstd::prelude::*;

use crate::value::{Value, ValueView, Span, views_of, lemma_views_of};
use crate::render::{seq_renders, join_texts, render_joined};
use crate::cast::is_char_list_of;
use crate::eval::{Error, ErrorKind};

verus! {

/// The stable keys under which the host registers this package's
/// callables as `System` values.
pub const PRINTLN_KEY: u64 = 1;

pub const EPRINTLN_KEY: u64 = 2;

pub const DEBUG_KEY: u64 = 3;

pub const PANIC_KEY: u64 = 4;

pub const ARGS_KEY: u64 = 5;

/// A named grouping of host-function registrations: each entry binds a
/// name to the `System` value the evaluator dispatches on.
pub struct Package {
    pub name: Vec<char>,
    pub definitions: Vec<(Vec<char>, Value)>,
}

/// The input-output package: printing, error raising, and the process
/// arguments.
pub fn package() -> (r: Package)
    ensures
        r.name@ == seq!['i', 'o'],
        r.definitions@.len() == 5,
        r.definitions@[0].0@ == seq!['p', 'r', 'i', 'n', 't', 'l', 'n'],
        r.definitions@[0].1@ == ValueView::System(PRINTLN_KEY as u64),
        r.definitions@[1].0@ == seq!['e', 'p', 'r', 'i', 'n', 't', 'l', 'n'],
        r.definitions@[1].1@ == ValueView::System(EPRINTLN_KEY as u64),
        r.definitions@[2].0@ == seq!['d', 'e', 'b', 'u', 'g'],
        r.definitions@[2].1@ == ValueView::System(DEBUG_KEY as u64),
        r.definitions@[3].0@ == seq!['p', 'a', 'n', 'i', 'c'],
        r.definitions@[3].1@ == ValueView::System(PANIC_KEY as u64),
        r.definitions@[4].0@ == seq!['a', 'r', 'g', 's'],
        r.definitions@[4].1@ == ValueView::System(ARGS_KEY as u64),
{
    let mut defs: Vec<(Vec<char>, Value)> = Vec::new();
    let pn: Vec<char> = vec!['p', 'r', 'i', 'n', 't', 'l', 'n'];
    defs.push((pn, Value::System(PRINTLN_KEY)));
    let en: Vec<char> = vec!['e', 'p', 'r', 'i', 'n', 't', 'l', 'n'];
    defs.push((en, Value::System(EPRINTLN_KEY)));
    let dn: Vec<char> = vec!['d', 'e', 'b', 'u', 'g'];
    defs.push((dn, Value::System(DEBUG_KEY)));
    let an: Vec<char> = vec!['p', 'a', 'n', 'i', 'c'];
    defs.push((an, Value::System(PANIC_KEY)));
    let gn: Vec<char> = vec!['a', 'r', 'g', 's'];
    defs.push((gn, Value::System(ARGS_KEY)));
    let name: Vec<char> = vec!['i', 'o'];
    proof {
        assert(name@ =~= seq!['i', 'o']);
        assert(defs@[0].0@ =~= seq!['p', 'r', 'i', 'n', 't', 'l', 'n']);
        assert(defs@[1].0@ =~= seq!['e', 'p', 'r', 'i', 'n', 't', 'l', 'n']);
        assert(defs@[2].0@ =~= seq!['d', 'e', 'b', 'u', 'g']);
        assert(defs@[3].0@ =~= seq!['p', 'a', 'n', 'i', 'c']);
        assert(defs@[4].0@ =~= seq!['a', 'r', 'g', 's']);
    }
    Package { name, definitions: defs }
}

/// Prints its arguments on standard output, space-joined, in display
/// form. The host performs the printing of the line computed here and
/// answers with `Unit`.
pub struct Println;

impl Println {
    pub fn line(args: &Vec<Value>, texts: &mut Vec<Vec<char>>) -> (out: Vec<char>)
        ensures
            out@ == join_texts(
                seq_renders(views_of(args@), old(texts).deep_view()).0,
                seq![' '],
            ),
    {
        let sep: Vec<char> = vec![' '];
        proof {
            assert(sep@ =~= seq![' ']);
        }
        render_joined(args, texts, &sep)
    }

    pub fn result() -> (r: Value)
        ensures
            r@ == ValueView::Unit,
    {
        Value::Unit
    }
}

/// As `Println`, on standard error; the host colors the line red.
pub struct Eprintln;

impl Eprintln {
    pub fn line(args: &Vec<Value>, texts: &mut Vec<Vec<char>>) -> (out: Vec<char>)
        ensures
            out@ == join_texts(
                seq_renders(views_of(args@), old(texts).deep_view()).0,
                seq![' '],
            ),
    {
        let sep: Vec<char> = vec![' '];
        proof {
            assert(sep@ =~= seq![' ']);
        }
        render_joined(args, texts, &sep)
    }
}

/// Prints its arguments in debug form. The dump spells out the value
/// representation itself, which the host derives; only the registration
/// lives here.
pub struct Debug;

impl Debug {
    pub fn result() -> (r: Value)
        ensures
            r@ == ValueView::Unit,
    {
        Value::Unit
    }
}

/// Raises an error whose message is the space-joined display of the
/// arguments, attributed to the caller's location.
pub struct Panic;

impl Panic {
    pub fn error(args: &Vec<Value>, texts: &mut Vec<Vec<char>>, span: Span) -> (r: Error)
        ensures
            r.span == span,
            r.cause is None,
            r.kind matches ErrorKind::Raised { message } && message@ == join_texts(
                seq_renders(views_of(args@), old(texts).deep_view()).0,
                seq![' '],
            ),
    {
        let sep: Vec<char> = vec![' '];
        proof {
            assert(sep@ =~= seq![' ']);
        }
        let message = render_joined(args, texts, &sep);
        Error::from_span(span, ErrorKind::Raised { message })
    }
}

/// Hands back the process arguments as a list of string values. The host
/// reads the real arguments; this turns them into values. Called with
/// any arguments at all, it is an arity mismatch.
pub struct Args;

impl Args {
    pub fn check_no_args(args: &Vec<Value>, span: Span) -> (r: Result<(), Error>)
        ensures
            args@.len() == 0 <==> r is Ok,
            r matches Err(e) ==> e.span == span && e.cause is None && (e.kind
                matches ErrorKind::ArityOrSignatureMismatch { expected } && expected@
                == seq!['(', ')']),
    {
        if args.len() == 0 {
            Ok(())
        } else {
            let expected: Vec<char> = vec!['(', ')'];
            proof {
                assert(expected@ =~= seq!['(', ')']);
            }
            Err(Error::from_span(span, ErrorKind::ArityOrSignatureMismatch { expected }))
        }
    }

    pub fn args_value(args: Vec<Vec<char>>) -> (r: Value)
        ensures
            r@ matches ValueView::List { items, spread } && !spread && items.len()
                == args.deep_view().len() && (forall|i: int|
                0 <= i < items.len() ==> is_char_list_of(
                    #[trigger] items[i],
                    args.deep_view()[i],
                )),
    {
        let mut args = args;
        let ghost a0 = args.deep_view();
        let n0 = args.len();
        proof {
            assert(a0.len() == args@.len());
            assert(args@.len() == n0);
        }
        let mut items: Vec<Value> = Vec::new();
        let mut k: usize = 0;
        while args.len() > 0
            invariant
                args.deep_view().len() == args@.len(),
                k + args.deep_view().len() == a0.len(),
                a0.len() == n0,
                k <= a0.len(),
                items@.len() == k,
                forall|i: int|
                    0 <= i < args.deep_view().len() ==> args.deep_view()[i] == a0[i
                        + k],
                forall|i: int|
                    0 <= i < k ==> is_char_list_of((#[trigger] items@[i])@, a0[i]),
            decreases args@.len(),
        {
            let ghost ad = args.deep_view();
            let a = args.remove(0);
            proof {
                assert(a@ == ad[0]);
                assert forall|i: int|
                    0 <= i < args.deep_view().len() implies args.deep_view()[i] == ad[i
                        + 1] by {}
            }
            let v = crate::cast::char_list_value(&a);
            items.push(v);
            k = k + 1;
        }
        proof {
            lemma_views_of(items@);
            assert forall|i: int|
                0 <= i < views_of(items@).len() implies is_char_list_of(
                #[trigger] views_of(items@)[i],
                a0[i],
            ) by {
                assert(views_of(items@)[i] == (items@[i])@);
            }
        }
        Value::List { items, spread: false }
    }
}

} // verus!
