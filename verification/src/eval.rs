use vstd::prelude::*;

use crate::value::{
    Value, ValueType, ValueView, Span, Spanned, FunctionDef, Binding, Definition, view_of,
    views_of, lemma_views_of,
};
use crate::ops::OpError;
use crate::cast::is_char_list_of;

verus! {

/// Why an evaluation failed. Aggregate constructs wrap a child failure
/// with a cause naming the enclosing construct, preserving the chain.
#[derive(Debug)]
pub enum ErrorKind {
    /// A syntax node with no standalone value (a hole or a type
    /// definition).
    NotEvaluable,
    /// A conversion with no defined rule, carrying the source value's
    /// type descriptor and the attempted target.
    CastFailure { from: Value, to: Value },
    /// An operator applied outside its domain.
    OperatorTypeMismatch(OpError),
    /// A host function's declared call pattern does not match the
    /// supplied arguments; carries the expected pattern.
    ArityOrSignatureMismatch { expected: Vec<char> },
    /// The enclosing list literal whose element failed.
    ListConstruction,
    /// An error raised from within a host-function callee, with its
    /// message.
    Raised { message: Vec<char> },
}

#[derive(Debug)]
pub struct Error {
    pub span: Span,
    pub kind: ErrorKind,
    pub cause: Option<Box<Error>>,
}

impl Error {
    /// An error at a source location, without a cause.
    pub fn from_span(span: Span, kind: ErrorKind) -> (r: Error)
        ensures
            r.span == span,
            r.kind == kind,
            r.cause is None,
    {
        Error { span, kind, cause: None }
    }

    /// Wraps a child failure, adding the enclosing construct and its
    /// location as the outer link of the causal chain.
    pub fn new_cause(child: Error, kind: ErrorKind, span: Span) -> (r: Error)
        ensures
            r.span == span,
            r.kind == kind,
            r.cause matches Some(b) && *b == child,
    {
        Error { span, kind, cause: Some(Box::new(child)) }
    }
}

/// An unevaluated syntax node. List elements and deferred expressions are
/// identified by the keys under which the external recursive evaluator
/// resolves them; literal payloads are carried directly.
pub enum Operand {
    Hole,
    Integer(i128),
    Float(u64),
    Boolean(bool),
    StructDefinition { fields: Vec<Spanned<String>> },
    EnumDefinition { values: Vec<Spanned<String>> },
    ListInit { items: Vec<u64> },
    FunctionInit(FunctionDef),
    String(Vec<char>),
    Identifier(Spanned<String>),
    ValueType(ValueType),
}

/// What evaluating an operand needs next: a finished value, a failure, or
/// a recursive step only the external evaluator can take — evaluating the
/// elements of a list literal (then `splice_list`), a function literal's
/// own evaluation, or an identifier resolution (then `Scope::realize_binding`).
pub enum EvalStep {
    Done(Value),
    Fail(Error),
    NeedsList,
    NeedsFunction(FunctionDef),
    NeedsIdentifier,
}

/// Evaluates the literal cases of an operand directly; structural and
/// name cases report which external step they need. Holes and type
/// definitions are not evaluable. After an identifier resolves, the
/// caller hands the realized value to `Scope::realize_binding`.
pub fn eval_operand(node: &Spanned<Operand>) -> (r: EvalStep)
    ensures
        match node.node {
            Operand::Integer(i) => r matches EvalStep::Done(v) && v@ == ValueView::Int(i),
            Operand::Float(b) => r matches EvalStep::Done(v) && v@ == ValueView::Float(b),
            Operand::Boolean(b) => r matches EvalStep::Done(v) && v@ == ValueView::Bool(
                b,
            ),
            Operand::String(s) => r matches EvalStep::Done(v) && is_char_list_of(
                v@,
                s@,
            ),
            Operand::ValueType(t) => r matches EvalStep::Done(v) && v@ == ValueView::Type(
                t,
            ),
            Operand::FunctionInit(f) => r matches EvalStep::NeedsFunction(g) && g == f,
            Operand::ListInit { .. } => r is NeedsList,
            Operand::Identifier(_) => r is NeedsIdentifier,
            _ => r matches EvalStep::Fail(e) && e.span == node.span && e.kind
                is NotEvaluable && e.cause is None,
        },
{
    match &node.node {
        Operand::Integer(i) => EvalStep::Done(Value::Int(*i)),
        Operand::Float(b) => EvalStep::Done(Value::Float(*b)),
        Operand::Boolean(b) => EvalStep::Done(Value::Bool(*b)),
        Operand::String(s) => EvalStep::Done(crate::cast::char_list_value(s)),
        Operand::ValueType(t) => EvalStep::Done(Value::Type(*t)),
        Operand::FunctionInit(f) => EvalStep::NeedsFunction(*f),
        Operand::ListInit { .. } => EvalStep::NeedsList,
        Operand::Identifier(_) => EvalStep::NeedsIdentifier,
        _ => EvalStep::Fail(Error::from_span(node.span, ErrorKind::NotEvaluable)),
    }
}

/// One-level splicing: an element that is a spread-marked list dissolves
/// into its own elements; every other element, nested lists included,
/// stays one element. The result never carries the spread flag.
pub open spec fn splice(items: Seq<ValueView>) -> Seq<ValueView>
    decreases items,
{
    if items.len() == 0 {
        Seq::empty()
    } else {
        (match items[0] {
            ValueView::List { items: inner, spread: true } => inner,
            _ => seq![items[0]],
        }) + splice(items.drop_first())
    }
}

/// Builds the value of a list literal from its evaluated elements.
pub fn splice_list(results: Vec<Value>) -> (r: Value)
    ensures
        r@ == (ValueView::List { items: splice(views_of(results@)), spread: false }),
{
    let mut results = results;
    let ghost w = views_of(results@);
    let mut out: Vec<Value> = Vec::new();
    proof {
        lemma_views_of(results@);
        assert(views_of(results@) =~= w.skip(0));
        assert(views_of(out@) =~= Seq::<ValueView>::empty());
    }
    while results.len() > 0
        invariant
            splice(w) == views_of(out@) + splice(views_of(results@)),
        decreases results@.len(),
    {
        let ghost oldr = results@;
        let ghost oldviews = views_of(results@);
        let ghost out_old = views_of(out@);
        proof {
            lemma_views_of(oldr);
        }
        let v = results.remove(0);
        let ghost vv = v@;
        let ghost head = (match vv {
            ValueView::List { items: inner, spread: true } => inner,
            _ => seq![vv],
        });
        proof {
            lemma_views_of(results@);
            assert(results@ =~= oldr.drop_first());
            assert forall|i: int|
                0 <= i < results@.len() implies views_of(results@)[i]
                == oldviews.drop_first()[i] by {
                assert(views_of(results@)[i] == view_of(results@[i]));
                assert(oldviews[i + 1] == view_of(oldr[i + 1]));
            }
            assert(views_of(results@) =~= oldviews.drop_first());
            assert(vv == oldviews[0]);
            assert(splice(oldviews) == head + splice(oldviews.drop_first()));
        }
        match v {
            Value::List { items: inner, spread: true } => {
                proof {
                    assert(views_of(inner@) == vv->List_items);
                }
                crate::ops::append_values(&mut out, inner);
            }
            other => {
                let ghost osnap = other;
                let ghost outp = out@;
                out.push(other);
                proof {
                    crate::value::lemma_views_of_concat(outp, seq![osnap]);
                    assert(out@ =~= outp + seq![osnap]);
                    lemma_views_of(seq![osnap]);
                    assert(views_of(seq![osnap]) =~= seq![view_of(osnap)]);
                    assert(views_of(out@) == views_of(outp + seq![osnap]));
                    assert(views_of(out@) == out_old + seq![vv]);
                }
            }
        }
        proof {
            assert(views_of(out@) == out_old + head);
            assert((out_old + head) + splice(views_of(results@)) =~= out_old + (head
                + splice(views_of(results@))));
        }
    }
    proof {
        lemma_views_of(results@);
        assert(views_of(results@) =~= Seq::<ValueView>::empty());
        assert(views_of(out@) + Seq::<ValueView>::empty() =~= views_of(out@));
    }
    Value::List { items: out, spread: false }
}

/// A literal or structural item of a pattern, prior to matching.
pub enum PatternItem {
    Hole,
    Integer(i128),
    Float(u64),
    Boolean(bool),
    String(Vec<char>),
    Identifier(Spanned<String>),
}

impl Value {
    /// The value a literal pattern item stands for; structural items
    /// (holes, names) name no value.
    pub fn from_pattern(p: &PatternItem) -> (r: Option<Value>)
        ensures
            match *p {
                PatternItem::Integer(i) => r matches Some(v) && v@ == ValueView::Int(i),
                PatternItem::Float(b) => r matches Some(v) && v@ == ValueView::Float(b),
                PatternItem::Boolean(b) => r matches Some(v) && v@ == ValueView::Bool(b),
                PatternItem::String(ref s) => r matches Some(v) && is_char_list_of(
                    v@,
                    s@,
                ),
                _ => r is None,
            },
    {
        match p {
            PatternItem::Integer(i) => Some(Value::Int(*i)),
            PatternItem::Float(b) => Some(Value::Float(*b)),
            PatternItem::Boolean(b) => Some(Value::Bool(*b)),
            PatternItem::String(s) => Some(crate::cast::char_list_value(s)),
            _ => None,
        }
    }
}

/// An environment frame: named bindings, each deferred or realized, the
/// realized slot rewritable in place.
pub struct Scope {
    pub bindings: Vec<Binding>,
}

/// The first binding with this name, if any.
pub open spec fn first_binding(s: Seq<Binding>, name: Seq<char>) -> Option<int>
    decreases s,
{
    if s.len() == 0 {
        None
    } else if s[0].name@ == name {
        Some(0int)
    } else {
        match first_binding(s.drop_first(), name) {
            Some(i) => Some(i + 1),
            None => None,
        }
    }
}

proof fn lemma_first_binding(s: Seq<Binding>, name: Seq<char>)
    ensures
        match first_binding(s, name) {
            Some(i) => 0 <= i < s.len() && s[i].name@ == name && (forall|j: int|
                0 <= j < i ==> s[j].name@ != name),
            None => forall|j: int| 0 <= j < s.len() ==> s[j].name@ != name,
        },
    decreases s,
{
    if s.len() > 0 {
        lemma_first_binding(s.drop_first(), name);
        if s[0].name@ != name {
            match first_binding(s.drop_first(), name) {
                Some(i) => {
                    assert(s.drop_first()[i] == s[i + 1]);
                    assert(forall|j: int|
                        1 <= j < i + 1 ==> s.drop_first()[j - 1] == s[j]);
                }
                None => {
                    assert(forall|j: int|
                        1 <= j < s.len() ==> s.drop_first()[j - 1] == s[j]);
                }
            }
        }
    }
}

impl Scope {
    /// The definition currently bound to the name, if the name is bound:
    /// the first binding with that name answers.
    pub fn lookup(&self, name: &String) -> (r: Option<&Definition>)
        ensures
            match first_binding(self.bindings@, name@) {
                Some(i) => r matches Some(d) && *d == self.bindings@[i].definition,
                None => r is None,
            },
    {
        proof {
            lemma_first_binding(self.bindings@, name@);
        }
        let mut k: usize = 0;
        while k < self.bindings.len()
            invariant
                k <= self.bindings@.len(),
                forall|j: int| 0 <= j < k ==> self.bindings@[j].name@ != name@,
            decreases self.bindings@.len() - k,
        {
            if self.bindings[k].name.eq(name) {
                proof {
                    lemma_first_binding(self.bindings@, name@);
                }
                return Some(&self.bindings[k].definition);
            }
            k = k + 1;
        }
        proof {
            lemma_first_binding(self.bindings@, name@);
        }
        None
    }

    /// Best-effort caching after identifier resolution: if the name is
    /// bound, its first binding is overwritten in place with the realized
    /// value, so later lookups skip re-evaluation; an unbound name
    /// changes nothing and is no error.
    pub fn realize_binding(&mut self, name: &String, v: Value) -> (r: ())
        ensures
            match first_binding(old(self).bindings@, name@) {
                Some(i) => final(self).bindings@.len() == old(self).bindings@.len()
                    && final(self).bindings@[i].name == old(self).bindings@[i].name
                    && final(self).bindings@[i].definition == Definition::Realized(v)
                    && (forall|j: int|
                    0 <= j < old(self).bindings@.len() && j != i
                        ==> final(self).bindings@[j] == old(self).bindings@[j]),
                None => *final(self) == *old(self),
            },
    {
        proof {
            lemma_first_binding(self.bindings@, name@);
        }
        let n = self.bindings.len();
        let mut k: usize = 0;
        while k < n
            invariant
                n == self.bindings@.len(),
                self == old(self),
                k <= n,
                forall|j: int| 0 <= j < k ==> self.bindings@[j].name@ != name@,
            decreases n - k,
        {
            if self.bindings[k].name.eq(name) {
                proof {
                    lemma_first_binding(self.bindings@, name@);
                }
                let old_b = self.bindings.remove(k);
                self.bindings.insert(
                    k,
                    Binding { name: old_b.name, definition: Definition::Realized(v) },
                );
                proof {
                    assert(first_binding(old(self).bindings@, name@) == Some(k as int));
                    assert(self.bindings@[k as int].name == old(self).bindings@[
                        k as int].name);
                    assert forall|j: int|
                        0 <= j < old(self).bindings@.len() && j != k implies self.bindings@[j]
                        == old(self).bindings@[j] by {}
                }
                return ;
            }
            k = k + 1;
        }
        proof {
            lemma_first_binding(self.bindings@, name@);
        }
    }
}

} // verus!
