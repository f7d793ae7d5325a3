use vstd::prelude::*;

verus! {

/// The type of a plain value, as a tag that can be compared at run time.
#[derive(Clone, Copy, Debug, PartialEq, Eq, Structural)]
pub enum Kind {
    Unit,
    Bool,
    Int,
    Text,
}

/// A plain value. The registry stores values of this closed set of types, so
/// a request for the wrong type can be told from a request for a missing key.
#[derive(Debug, PartialEq, Eq)]
pub enum Value {
    Unit,
    Bool(bool),
    Int(i64),
    Text(String),
}

/// What a [`Value`] is, with text as a sequence of characters.
pub enum ValueView {
    Unit,
    Bool(bool),
    Int(i64),
    Text(Seq<char>),
}

impl ValueView {
    pub open spec fn kind(self) -> Kind {
        match self {
            ValueView::Unit => Kind::Unit,
            ValueView::Bool(_) => Kind::Bool,
            ValueView::Int(_) => Kind::Int,
            ValueView::Text(_) => Kind::Text,
        }
    }
}

impl View for Value {
    type V = ValueView;

    open spec fn view(&self) -> ValueView {
        match self {
            Value::Unit => ValueView::Unit,
            Value::Bool(b) => ValueView::Bool(*b),
            Value::Int(i) => ValueView::Int(*i),
            Value::Text(s) => ValueView::Text(s@),
        }
    }
}

impl Clone for Value {
    fn clone(&self) -> (r: Self)
        ensures
            r@ == self@,
    {
        match self {
            Value::Unit => Value::Unit,
            Value::Bool(b) => Value::Bool(*b),
            Value::Int(i) => Value::Int(*i),
            Value::Text(s) => Value::Text(s.clone()),
        }
    }
}

impl Value {
    /// The type tag of this value.
    pub fn kind(&self) -> (k: Kind)
        ensures
            k == self@.kind(),
    {
        match self {
            Value::Unit => Kind::Unit,
            Value::Bool(_) => Kind::Bool,
            Value::Int(_) => Kind::Int,
            Value::Text(_) => Kind::Text,
        }
    }
}

/// A value together with the scope that owns it. It is visible outside that
/// scope if and only if `export` is set.
#[derive(Debug, PartialEq, Eq)]
pub struct ScopedValue {
    pub scope: String,
    pub v: Value,
    pub export: bool,
}

/// What a [`ScopedValue`] is.
pub struct ScopedValueView {
    pub scope: Seq<char>,
    pub v: ValueView,
    pub export: bool,
}

impl ScopedValueView {
    /// Whether a requester in scope `requester` may see this value.
    pub open spec fn visible_to(self, requester: Seq<char>) -> bool {
        self.export || requester == self.scope
    }
}

impl View for ScopedValue {
    type V = ScopedValueView;

    open spec fn view(&self) -> ScopedValueView {
        ScopedValueView { scope: self.scope@, v: self.v@, export: self.export }
    }
}

impl Clone for ScopedValue {
    fn clone(&self) -> (r: Self)
        ensures
            r@ == self@,
    {
        ScopedValue { scope: self.scope.clone(), v: self.v.clone(), export: self.export }
    }
}

impl ScopedValue {
    /// Whether a requester in scope `requester` may see this value: it may if
    /// the value is exported or the requester is the owning scope itself.
    pub fn visible_to(&self, requester: &String) -> (b: bool)
        ensures
            b == self@.visible_to(requester@),
    {
        self.export || *requester == self.scope
    }
}

/// The type of a stored binding: a plain value of some kind, or a scoped
/// value whose payload is of some kind.
#[derive(Clone, Copy, Debug, PartialEq, Eq, Structural)]
pub enum TypeTag {
    Plain(Kind),
    Scoped(Kind),
}

/// A stored binding with its type erased: the registry holds these, and a
/// lookup names the [`TypeTag`] it expects.
#[derive(Debug, PartialEq, Eq)]
pub enum Erased {
    Plain(Value),
    Scoped(ScopedValue),
}

/// What an [`Erased`] binding is.
pub enum ErasedView {
    Plain(ValueView),
    Scoped(ScopedValueView),
}

impl ErasedView {
    pub open spec fn tag(self) -> TypeTag {
        match self {
            ErasedView::Plain(v) => TypeTag::Plain(v.kind()),
            ErasedView::Scoped(s) => TypeTag::Scoped(s.v.kind()),
        }
    }
}

impl View for Erased {
    type V = ErasedView;

    open spec fn view(&self) -> ErasedView {
        match self {
            Erased::Plain(v) => ErasedView::Plain(v@),
            Erased::Scoped(s) => ErasedView::Scoped(s@),
        }
    }
}

impl Clone for Erased {
    fn clone(&self) -> (r: Self)
        ensures
            r@ == self@,
    {
        match self {
            Erased::Plain(v) => Erased::Plain(v.clone()),
            Erased::Scoped(s) => Erased::Scoped(s.clone()),
        }
    }
}

impl Erased {
    /// The type tag of this binding.
    pub fn tag(&self) -> (t: TypeTag)
        ensures
            t == self@.tag(),
    {
        match self {
            Erased::Plain(v) => TypeTag::Plain(v.kind()),
            Erased::Scoped(s) => TypeTag::Scoped(s.v.kind()),
        }
    }
}

} // verus!
