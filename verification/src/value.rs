use vstd::prelude::*;

verus! {

/// A source location: the half-open byte range a syntax node came from.
#[derive(Debug, Clone, Copy, PartialEq, Eq, Structural)]
pub struct Span {
    pub start: usize,
    pub end: usize,
}

/// Provenance wrapper: pairs a payload with its originating source span.
pub struct Spanned<T> {
    pub span: Span,
    pub node: T,
}

impl<T> Spanned<T> {
    /// Replace the payload while keeping the location.
    pub fn with<U>(self, node: U) -> (r: Spanned<U>)
        ensures
            r.span == self.span,
            r.node == node,
    {
        Spanned { span: self.span, node }
    }
}

/// The descriptor tag set of the language's self-describing type system.
/// `Any` is a wildcard used only in type-to-type and type-to-list-of-types
/// comparisons; it never equals concrete non-type data.
#[derive(Debug, Clone, Copy, PartialEq, Eq, Structural)]
pub enum ValueType {
    Unit,
    Integer,
    Float,
    Char,
    Boolean,
    Function,
    Type,
    Any,
}

/// An unevaluated function definition, owned by a `Func` or `Closure` value.
/// The body itself belongs to the syntax layer; the core identifies a
/// definition by a stable key, which is all its equality rules inspect.
#[derive(Debug, Clone, Copy, PartialEq, Eq, Structural)]
pub struct FunctionDef {
    pub key: u64,
}

/// A named binding in an environment.
#[derive(Debug)]
pub struct Binding {
    pub name: String,
    pub definition: Definition,
}

/// Either a deferred expression (identified by the key the external
/// evaluator resolves) or a realized value. Mutable in place: identifier
/// evaluation overwrites a deferred binding with its realized value.
#[derive(Debug)]
pub enum Definition {

    Deferred(u64),
    Realized(Value),
}

/// A runtime value. `Float` holds the IEEE-754 double bit pattern: the core
/// never performs float arithmetic itself; operations that need it hand the
/// bit patterns back to the (unverified) host.
#[derive(Debug)]
pub enum Value {
    Unit,
    Int(i128),
    Float(u64),
    Char(char),
    Bool(bool),
    List { items: Vec<Value>, spread: bool },
    Func(FunctionDef),
    Closure { def: FunctionDef, captured: Vec<Binding> },
    System(u64),
    Type(ValueType),
}

/// The mathematical model of a `Value`: lists become sequences, names become
/// character sequences. All contracts of the core speak over this model.
pub enum ValueView {
    Unit,
    Int(i128),
    Float(u64),
    Char(char),
    Bool(bool),
    List { items: Seq<ValueView>, spread: bool },
    Func(u64),
    Closure { def: u64, captured: Seq<BindingView> },
    System(u64),
    Type(ValueType),
}

pub struct BindingView {
    pub name: Seq<char>,
    pub definition: DefinitionView,
}

pub enum DefinitionView {
    Deferred(u64),
    Realized(ValueView),
}

pub open spec fn view_of(v: Value) -> ValueView
    decreases v,
{
    match v {
        Value::Unit => ValueView::Unit,
        Value::Int(i) => ValueView::Int(i),
        Value::Float(b) => ValueView::Float(b),
        Value::Char(c) => ValueView::Char(c),
        Value::Bool(b) => ValueView::Bool(b),
        Value::List { items, spread } => ValueView::List { items: views_of(items@), spread },
        Value::Func(f) => ValueView::Func(f.key),
        Value::Closure { def, captured } => ValueView::Closure {
            def: def.key,
            captured: binding_views_of(captured@),
        },
        Value::System(k) => ValueView::System(k),
        Value::Type(t) => ValueView::Type(t),
    }
}

pub open spec fn views_of(s: Seq<Value>) -> Seq<ValueView>
    decreases s,
{
    if s.len() == 0 {
        Seq::empty()
    } else {
        seq![view_of(s[0])] + views_of(s.drop_first())
    }
}

pub open spec fn binding_views_of(s: Seq<Binding>) -> Seq<BindingView>
    decreases s,
{
    if s.len() == 0 {
        Seq::empty()
    } else {
        seq![binding_view_of(s[0])] + binding_views_of(s.drop_first())
    }
}

pub open spec fn binding_view_of(b: Binding) -> BindingView
    decreases b,
{
    BindingView { name: b.name@, definition: definition_view_of(b.definition) }
}

pub open spec fn definition_view_of(d: Definition) -> DefinitionView
    decreases d,
{
    match d {
        Definition::Deferred(k) => DefinitionView::Deferred(k),
        Definition::Realized(v) => DefinitionView::Realized(view_of(v)),
    }
}

impl View for Value {
    type V = ValueView;

    open spec fn view(&self) -> ValueView {
        view_of(*self)
    }
}

impl View for Binding {
    type V = BindingView;

    open spec fn view(&self) -> BindingView {
        binding_view_of(*self)
    }
}

impl View for Definition {
    type V = DefinitionView;

    open spec fn view(&self) -> DefinitionView {
        definition_view_of(*self)
    }
}

pub broadcast proof fn lemma_views_of(s: Seq<Value>)
    ensures
        (#[trigger] views_of(s)).len() == s.len(),
        forall|i: int| 0 <= i < s.len() ==> views_of(s)[i] == view_of(s[i]),
    decreases s,
{
    if s.len() > 0 {
        lemma_views_of(s.drop_first());
        assert forall|i: int| 0 <= i < s.len() implies views_of(s)[i] == view_of(s[i]) by {
            if i > 0 {
                assert(s.drop_first()[i - 1] == s[i]);
            }
        }
    }
}

pub proof fn lemma_views_of_concat(s1: Seq<Value>, s2: Seq<Value>)
    ensures
        views_of(s1 + s2) == views_of(s1) + views_of(s2),
    decreases s1,
{
    if s1.len() == 0 {
        assert(s1 + s2 =~= s2);
        assert(views_of(s1) =~= Seq::<ValueView>::empty());
        assert(views_of(s1) + views_of(s2) =~= views_of(s2));
    } else {
        lemma_views_of_concat(s1.drop_first(), s2);
        assert((s1 + s2).drop_first() =~= s1.drop_first() + s2);
        assert((s1 + s2)[0] == s1[0]);
        assert(views_of(s1 + s2) == seq![view_of(s1[0])] + views_of(s1.drop_first() + s2));
        assert(seq![view_of(s1[0])] + (views_of(s1.drop_first()) + views_of(s2))
            =~= (seq![view_of(s1[0])] + views_of(s1.drop_first())) + views_of(s2));
    }
}

} // verus!
