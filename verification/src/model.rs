use vstd::prelude::*;

use crate::error::ErrorView;
use crate::message;
use crate::pending::{OwnerView, PendingView};
use crate::value::{ErasedView, Kind, ScopedValueView, TypeTag, ValueView};

verus! {

/// A result, with what it holds taken by its view.
pub open spec fn viewed<T: View, E: View>(r: Result<T, E>) -> Result<T::V, E::V> {
    match r {
        Ok(t) => Ok(t@),
        Err(e) => Err(e@),
    }
}

/// What a direct lookup of `name` with type `tag` gives: the value bound to
/// the name where its type is `tag`, a type mismatch where it is bound to a
/// value of another type, and key-not-found where it is not bound.
pub open spec fn direct_lookup(
    values: Map<Seq<char>, ErasedView>,
    name: Seq<char>,
    tag: TypeTag,
) -> Result<ErasedView, ErrorView> {
    if !values.contains_key(name) {
        Err(ErrorView::KeyNotFound(message::direct_key_not_found(name)))
    } else if values[name].tag() != tag {
        Err(ErrorView::TypeMismatch(message::direct_type_mismatch(name)))
    } else {
        Ok(values[name])
    }
}

/// What a lookup of `name` with type `tag` gives in the course of a
/// resolution whose chain of keys is `chain`.
pub open spec fn lookup(
    values: Map<Seq<char>, ErasedView>,
    name: Seq<char>,
    tag: TypeTag,
    chain: Seq<Seq<char>>,
) -> Result<ErasedView, ErrorView> {
    if !values.contains_key(name) {
        Err(ErrorView::KeyNotFound(message::key_not_found(name, chain)))
    } else if values[name].tag() != tag {
        Err(ErrorView::TypeMismatch(message::value_type_mismatch(name)))
    } else {
        Ok(values[name])
    }
}

/// What the first half of a resolution hands back: a value that is ready,
/// or a factory that is to be run.
pub enum ResolutionView<F> {
    Ready(ErasedView),
    Build(PendingView<F>),
}

/// The first half of the resolution of `name` with type `tag`. A factory
/// that waits under the name is handed out where it has promised the type
/// `tag`, and is a type mismatch where it has not. Where no factory waits
/// under the name, the values decide.
pub open spec fn begin<F>(
    factories: Map<Seq<char>, PendingView<F>>,
    values: Map<Seq<char>, ErasedView>,
    name: Seq<char>,
    tag: TypeTag,
    chain: Seq<Seq<char>>,
) -> Result<ResolutionView<F>, ErrorView> {
    if factories.contains_key(name) {
        if factories[name].tag() == tag {
            Ok(ResolutionView::Build(factories[name]))
        } else {
            Err(ErrorView::TypeMismatch(message::factory_type_mismatch(name)))
        }
    } else {
        match lookup(values, name, tag, chain) {
            Ok(e) => Ok(ResolutionView::Ready(e)),
            Err(e) => Err(e),
        }
    }
}

/// The result of the resolution of `name` where no factory has to be run
/// for it, and `None` where one has to be.
pub open spec fn resolved<F>(
    factories: Map<Seq<char>, PendingView<F>>,
    values: Map<Seq<char>, ErasedView>,
    name: Seq<char>,
    tag: TypeTag,
    chain: Seq<Seq<char>>,
) -> Option<Result<ErasedView, ErrorView>> {
    match begin(factories, values, name, tag, chain) {
        Ok(ResolutionView::Ready(e)) => Some(Ok(e)),
        Ok(ResolutionView::Build(_)) => None,
        Err(e) => Some(Err(e)),
    }
}

/// The binding that a product `v` is stored as: a scoped value where the
/// factory has an owner, a plain value where it has none.
pub open spec fn seal(v: ValueView, owner: Option<OwnerView>) -> ErasedView {
    match owner {
        Some(o) => ErasedView::Scoped(ScopedValueView { scope: o.scope, v, export: o.export }),
        None => ErasedView::Plain(v),
    }
}

/// The second half of a resolution: what becomes of what a factory handed
/// back. Its failure is passed on. Its product is sealed where it is of the
/// kind that the factory has promised, and is a type mismatch where it is
/// not.
pub open spec fn settle(
    name: Seq<char>,
    kind: Kind,
    owner: Option<OwnerView>,
    built: Result<ValueView, ErrorView>,
) -> Result<ErasedView, ErrorView> {
    match built {
        Err(e) => Err(e),
        Ok(v) => if v.kind() == kind {
            Ok(seal(v, owner))
        } else {
            Err(ErrorView::TypeMismatch(message::value_type_mismatch(name)))
        },
    }
}

/// The values after a resolution of `name` has ended in `outcome`: a
/// product is bound to the name, a failure leaves the values as they are.
pub open spec fn record(
    values: Map<Seq<char>, ErasedView>,
    name: Seq<char>,
    outcome: Result<ErasedView, ErrorView>,
) -> Map<Seq<char>, ErasedView> {
    match outcome {
        Ok(e) => values.insert(name, e),
        Err(_) => values,
    }
}

/// The factories after a resolution of `name` has ended in `outcome`: a
/// product takes the place of whatever the name was bound to, so that no
/// factory waits under the name; a failure leaves the factories as they
/// are.
pub open spec fn retire<F>(
    factories: Map<Seq<char>, PendingView<F>>,
    name: Seq<char>,
    outcome: Result<ErasedView, ErrorView>,
) -> Map<Seq<char>, PendingView<F>> {
    match outcome {
        Ok(_) => factories.remove(name),
        Err(_) => factories,
    }
}

/// Whether every key is in one state: no key is bound both to a factory
/// and to a value.
pub open spec fn exclusive<F>(
    factories: Map<Seq<char>, PendingView<F>>,
    values: Map<Seq<char>, ErasedView>,
) -> bool {
    forall|k: Seq<char>| !(#[trigger] factories.contains_key(k) && values.contains_key(k))
}

/// Whether a registry with the factories `later_factories` and the values
/// `later_values` can have come from one with `factories` and `values`
/// by resolutions alone, without a registration in between: no factory has
/// appeared or changed, no value has gone, and a key holds another value
/// than before, or a value for the first time, only where its factory has
/// left the registry.
pub open spec fn descends<F>(
    factories: Map<Seq<char>, PendingView<F>>,
    values: Map<Seq<char>, ErasedView>,
    later_factories: Map<Seq<char>, PendingView<F>>,
    later_values: Map<Seq<char>, ErasedView>,
) -> bool {
    &&& forall|k: Seq<char>| #[trigger]
        later_factories.contains_key(k) ==> factories.contains_key(k) && factories[k]
            == later_factories[k]
    &&& forall|k: Seq<char>| #[trigger] values.contains_key(k) ==> later_values.contains_key(k)
    &&& forall|k: Seq<char>|
        !(factories.contains_key(k) && !later_factories.contains_key(k)) ==> (
        #[trigger] later_values.contains_key(k) == values.contains_key(k)) && (values.contains_key(
            k,
        ) ==> later_values[k] == values[k])
}

} // verus!
