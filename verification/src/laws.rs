use vstd::prelude::*;

use crate::error::ErrorView;
use crate::message;
use crate::model::{
    begin, descends, direct_lookup, exclusive, record, resolved, retire, settle, ResolutionView,
};
use crate::pending::PendingView;
use crate::search::{
    direct_search, escape_of, escaped, judge, narrow, nested_traced, top_traced, Ended, Held, Leg, lemma_escaped_plain, lemma_scoped_key_injective, scoped_key, top_search,
    Searched,
};
use crate::value::{ErasedView, Kind, ScopedValueView, TypeTag, ValueView};

verus! {

/// A factory is run once. The first resolution of its key takes it out of
/// the registry. Once its product is bound to the key, no factory waits
/// under the key, and the next resolution of the key gives that product
/// without running a factory, whatever the factory did to the rest of the
/// registry while it ran.
pub proof fn law_memoization<F>(
    factories: Map<Seq<char>, PendingView<F>>,
    values: Map<Seq<char>, ErasedView>,
    name: Seq<char>,
    chain: Seq<Seq<char>>,
    product: ValueView,
    factories_then: Map<Seq<char>, PendingView<F>>,
    values_then: Map<Seq<char>, ErasedView>,
    chain_later: Seq<Seq<char>>,
)
    requires
        factories.contains_key(name),
        product.kind() == factories[name].kind,
    ensures
        ({
            let pending = factories[name];
            let first = settle(name, pending.kind, pending.origin.owner(), Ok(product));
            let factories_later = retire(factories_then, name, first);
            let values_later = record(values_then, name, first);
            &&& begin(factories, values, name, pending.tag(), chain) == Ok::<
                ResolutionView<F>,
                ErrorView,
            >(ResolutionView::Build(pending))
            &&& !factories.remove(name).contains_key(name)
            &&& first is Ok
            &&& !factories_later.contains_key(name)
            &&& resolved(factories_later, values_later, name, pending.tag(), chain_later) == Some(
                first,
            )
        }),
{
}

/// A factory that fails leaves its key an orphan. The resolution has taken
/// the factory out of the registry, and the failure binds nothing: a key
/// that had no value is then bound to nothing at all, and a later
/// resolution of it ends in key-not-found.
pub proof fn law_failed_factory_orphans_key<F>(
    factories: Map<Seq<char>, PendingView<F>>,
    values: Map<Seq<char>, ErasedView>,
    name: Seq<char>,
    failure: ErrorView,
    chain_later: Seq<Seq<char>>,
)
    requires
        factories.contains_key(name),
        !values.contains_key(name),
    ensures
        ({
            let pending = factories[name];
            let outcome = settle(name, pending.kind, pending.origin.owner(), Err(failure));
            let values_later = record(values, name, outcome);
            &&& outcome == Err::<ErasedView, ErrorView>(failure)
            &&& values_later == values
            &&& resolved(factories.remove(name), values_later, name, pending.tag(), chain_later)
                == Some(
                Err::<ErasedView, ErrorView>(
                    ErrorView::KeyNotFound(message::key_not_found(name, chain_later)),
                ),
            )
        }),
{
}

/// A registry comes from itself by resolutions alone.
pub proof fn law_descends_reflexive<F>(
    factories: Map<Seq<char>, PendingView<F>>,
    values: Map<Seq<char>, ErasedView>,
)
    ensures
        descends(factories, values, factories, values),
{
}

/// A resolution that runs no factory leaves a descendant: at most the
/// factory under its key has gone, and the values are as they were.
pub proof fn law_settled_resolution_descends<F>(
    factories: Map<Seq<char>, PendingView<F>>,
    values: Map<Seq<char>, ErasedView>,
    name: Seq<char>,
)
    ensures
        descends(factories, values, factories.remove(name), values),
{
}

/// What comes from a descendant of a registry comes from the registry.
pub proof fn law_descends_transitive<F>(
    factories: Map<Seq<char>, PendingView<F>>,
    values: Map<Seq<char>, ErasedView>,
    factories_then: Map<Seq<char>, PendingView<F>>,
    values_then: Map<Seq<char>, ErasedView>,
    factories_later: Map<Seq<char>, PendingView<F>>,
    values_later: Map<Seq<char>, ErasedView>,
)
    requires
        descends(factories, values, factories_then, values_then),
        descends(factories_then, values_then, factories_later, values_later),
    ensures
        descends(factories, values, factories_later, values_later),
{
    assert forall|k: Seq<char>| #[trigger]
        factories_later.contains_key(k) implies factories.contains_key(k) && factories[k]
        == factories_later[k] by {
        assert(factories_then.contains_key(k));
    }
    assert forall|k: Seq<char>|
        !(factories.contains_key(k) && !factories_later.contains_key(k)) implies (
    #[trigger] values_later.contains_key(k) == values.contains_key(k)) && (values.contains_key(k)
        ==> values_later[k] == values[k]) by {
        if factories_later.contains_key(k) {
            assert(factories_then.contains_key(k));
        }
        assert(values_then.contains_key(k) == values.contains_key(k));
    }
}

/// A whole resolution leaves a descendant of the registry that it began
/// on, provided that what its factory did in between has left one. So a
/// registry on which factories do nothing but resolve through their guard
/// only ever descends, however the resolutions are nested.
///
/// The resolution of `name` first takes the factory of `name` out. The
/// registry then becomes `factories_then` and `values_then` while the
/// factory runs, and in the end the outcome is recorded under `name`.
pub proof fn law_resolution_descends<F>(
    factories: Map<Seq<char>, PendingView<F>>,
    values: Map<Seq<char>, ErasedView>,
    name: Seq<char>,
    factories_then: Map<Seq<char>, PendingView<F>>,
    values_then: Map<Seq<char>, ErasedView>,
    outcome: Result<ErasedView, ErrorView>,
)
    requires
        factories.contains_key(name),
        descends(factories.remove(name), values, factories_then, values_then),
    ensures
        descends(
            factories,
            values,
            retire(factories_then, name, outcome),
            record(values_then, name, outcome),
        ),
        !factories_then.contains_key(name),
        retire(factories_then, name, outcome) == factories_then,
{
    let later_values = record(values_then, name, outcome);
    assert(!factories_then.contains_key(name)) by {
        if factories_then.contains_key(name) {
            assert(factories.remove(name).contains_key(name));
        }
    }
    assert(retire(factories_then, name, outcome) =~= factories_then);
    assert forall|k: Seq<char>| #[trigger]
        factories_then.contains_key(k) implies factories.contains_key(k) && factories[k]
        == factories_then[k] by {
        assert(factories.remove(name).contains_key(k));
    }
    assert forall|k: Seq<char>|
        !(factories.contains_key(k) && !factories_then.contains_key(k)) implies (
    #[trigger] later_values.contains_key(k) == values.contains_key(k)) && (values.contains_key(k)
        ==> later_values[k] == values[k]) by {
        assert(k != name);
        assert(!(factories.remove(name).contains_key(k) && !factories_then.contains_key(k)));
        assert(values_then.contains_key(k) == values.contains_key(k));
    }
    assert forall|k: Seq<char>| #[trigger] values.contains_key(k) implies later_values.contains_key(
        k,
    ) by {
        assert(values_then.contains_key(k));
    }
}

/// A key that has lost its factory to a failure stays an orphan through
/// every resolution that follows: it is bound to nothing, and is not found,
/// until it is registered again.
pub proof fn law_orphan_stays<F>(
    factories: Map<Seq<char>, PendingView<F>>,
    values: Map<Seq<char>, ErasedView>,
    name: Seq<char>,
    factories_later: Map<Seq<char>, PendingView<F>>,
    values_later: Map<Seq<char>, ErasedView>,
    tag: TypeTag,
    chain: Seq<Seq<char>>,
)
    requires
        !factories.contains_key(name),
        !values.contains_key(name),
        descends(factories, values, factories_later, values_later),
    ensures
        !factories_later.contains_key(name),
        !values_later.contains_key(name),
        resolved(factories_later, values_later, name, tag, chain) == Some(
            Err::<ErasedView, ErrorView>(
                ErrorView::KeyNotFound(message::key_not_found(name, chain)),
            ),
        ),
        direct_lookup(values_later, name, tag) == Err::<ErasedView, ErrorView>(
            ErrorView::KeyNotFound(message::direct_key_not_found(name)),
        ),
{
    assert(values_later.contains_key(name) == values.contains_key(name));
}

/// A value that no factory waits to replace is kept through every
/// resolution that follows: each later resolution of its key gives the same
/// value, without running a factory, until the key is registered again.
pub proof fn law_value_stays<F>(
    factories: Map<Seq<char>, PendingView<F>>,
    values: Map<Seq<char>, ErasedView>,
    name: Seq<char>,
    factories_later: Map<Seq<char>, PendingView<F>>,
    values_later: Map<Seq<char>, ErasedView>,
    chain: Seq<Seq<char>>,
)
    requires
        !factories.contains_key(name),
        values.contains_key(name),
        descends(factories, values, factories_later, values_later),
    ensures
        resolved(factories_later, values_later, name, values[name].tag(), chain) == Some(
            Ok::<ErasedView, ErrorView>(values[name]),
        ),
        direct_lookup(values_later, name, values[name].tag()) == Ok::<ErasedView, ErrorView>(
            values[name],
        ),
{
    assert(values_later.contains_key(name) == values.contains_key(name));
}

/// A factory that is asked for another type than it has promised is used
/// up all the same: the resolution fails with a type mismatch and the
/// factory is gone.
pub proof fn law_mismatched_factory_is_consumed<F>(
    factories: Map<Seq<char>, PendingView<F>>,
    values: Map<Seq<char>, ErasedView>,
    name: Seq<char>,
    tag: TypeTag,
    chain: Seq<Seq<char>>,
)
    requires
        factories.contains_key(name),
        factories[name].tag() != tag,
    ensures
        resolved(factories, values, name, tag, chain) == Some(
            Err::<ErasedView, ErrorView>(
                ErrorView::TypeMismatch(message::factory_type_mismatch(name)),
            ),
        ),
        !factories.remove(name).contains_key(name),
{
}

/// A value that is registered under a name is what a lookup and a
/// resolution of the name give, whatever the name was bound to before, and
/// a later registration under the same name takes its place. A factory
/// that waited under the name is gone and is never run.
pub proof fn law_value_override<F>(
    factories: Map<Seq<char>, PendingView<F>>,
    values: Map<Seq<char>, ErasedView>,
    name: Seq<char>,
    first: ErasedView,
    second: ErasedView,
    chain: Seq<Seq<char>>,
)
    ensures
        ({
            let factories_then = factories.remove(name);
            let values_then = values.insert(name, first);
            let values_later = values_then.insert(name, second);
            &&& !factories_then.contains_key(name)
            &&& direct_lookup(values_then, name, first.tag()) == Ok::<ErasedView, ErrorView>(first)
            &&& resolved(factories_then, values_then, name, first.tag(), chain) == Some(
                Ok::<ErasedView, ErrorView>(first),
            )
            &&& direct_lookup(values_later, name, second.tag()) == Ok::<ErasedView, ErrorView>(
                second,
            )
            &&& resolved(factories_then.remove(name), values_later, name, second.tag(), chain)
                == Some(Ok::<ErasedView, ErrorView>(second))
        }),
{
}

/// A factory that is registered under a name takes the place of a value
/// that the name held: the value is no longer found, and the next
/// resolution of the name hands the factory out.
pub proof fn law_factory_override<F>(
    factories: Map<Seq<char>, PendingView<F>>,
    values: Map<Seq<char>, ErasedView>,
    name: Seq<char>,
    pending: PendingView<F>,
    tag: TypeTag,
    chain: Seq<Seq<char>>,
)
    ensures
        ({
            let factories_then = factories.insert(name, pending);
            let values_then = values.remove(name);
            &&& direct_lookup(values_then, name, tag) == Err::<ErasedView, ErrorView>(
                ErrorView::KeyNotFound(message::direct_key_not_found(name)),
            )
            &&& begin(factories_then, values_then, name, pending.tag(), chain) == Ok::<
                ResolutionView<F>,
                ErrorView,
            >(ResolutionView::Build(pending))
        }),
{
}

/// Every key stays in one state. Where no key is bound both to a factory
/// and to a value, none is after a value or a factory is registered, after
/// a factory is taken out to be run, and after its outcome is recorded.
pub proof fn law_one_state<F>(
    factories: Map<Seq<char>, PendingView<F>>,
    values: Map<Seq<char>, ErasedView>,
    name: Seq<char>,
    value: ErasedView,
    pending: PendingView<F>,
    outcome: Result<ErasedView, ErrorView>,
)
    requires
        exclusive(factories, values),
    ensures
        exclusive(factories.remove(name), values.insert(name, value)),
        exclusive(factories.insert(name, pending), values.remove(name)),
        exclusive(factories.remove(name), values),
        exclusive(retire(factories, name, outcome), record(values, name, outcome)),
{
    assert forall|k: Seq<char>| !(#[trigger] factories.remove(name).contains_key(k)
        && values.insert(name, value).contains_key(k)) by {
        assert(!(factories.contains_key(k) && values.contains_key(k)));
    }
    assert forall|k: Seq<char>| !(#[trigger] factories.insert(name, pending).contains_key(k)
        && values.remove(name).contains_key(k)) by {
        assert(!(factories.contains_key(k) && values.contains_key(k)));
    }
    assert forall|k: Seq<char>| !(#[trigger] factories.remove(name).contains_key(k)
        && values.contains_key(k)) by {
        assert(!(factories.contains_key(k) && values.contains_key(k)));
    }
    assert forall|k: Seq<char>| !(#[trigger] retire(factories, name, outcome).contains_key(k)
        && record(values, name, outcome).contains_key(k)) by {
        assert(!(factories.contains_key(k) && values.contains_key(k)));
    }
}

/// A value that is asked for with another type than its own is a type
/// mismatch, not a missing key.
pub proof fn law_type_mismatch<F>(
    factories: Map<Seq<char>, PendingView<F>>,
    values: Map<Seq<char>, ErasedView>,
    name: Seq<char>,
    value: ErasedView,
    tag: TypeTag,
    chain: Seq<Seq<char>>,
)
    requires
        tag != value.tag(),
    ensures
        direct_lookup(values.insert(name, value), name, tag) == Err::<ErasedView, ErrorView>(
            ErrorView::TypeMismatch(message::direct_type_mismatch(name)),
        ),
        resolved(factories.remove(name), values.insert(name, value), name, tag, chain) == Some(
            Err::<ErasedView, ErrorView>(
                ErrorView::TypeMismatch(message::value_type_mismatch(name)),
            ),
        ),
{
}

/// A scoped value is visible outside the scope that owns it if and only if
/// it is exported, and is always visible to the scope that owns it. A
/// strict search fails on a value that the requester may not see; any
/// other search passes it over.
pub proof fn law_visibility(
    requester: Seq<char>,
    name: Seq<char>,
    strict: bool,
    found: ScopedValueView,
)
    ensures
        requester == found.scope ==> judge(requester, name, strict, Ok(found)) == Some(
            Ok::<ValueView, ErrorView>(found.v),
        ),
        requester != found.scope ==> (judge(requester, name, strict, Ok(found)) == Some(
            Ok::<ValueView, ErrorView>(found.v),
        ) <==> found.export),
        !found.visible_to(requester) ==> judge(requester, name, strict, Ok(found)) == (if strict {
            Some(Err::<ValueView, ErrorView>(ErrorView::InjectPrivateProvider(name)))
        } else {
            None
        }),
{
}

/// Two bindings share a key only if they are the same binding of the same
/// scope, whatever characters the names hold: a scope never reaches the
/// binding of another scope under a name of its own.
pub proof fn law_scoped_key_injective(
    scope: Seq<char>,
    name: Seq<char>,
    other_scope: Seq<char>,
    other_name: Seq<char>,
)
    ensures
        scoped_key(scope, name) == scoped_key(other_scope, other_name) <==> scope == other_scope
            && name == other_name,
{
    if scoped_key(scope, name) == scoped_key(other_scope, other_name) {
        lemma_scoped_key_injective(scope, name, other_scope, other_name);
    }
}

/// What a scope's name is written as holds no `#`.
pub proof fn law_escaped_has_no_hash(scope: Seq<char>)
    ensures
        !escaped(scope).contains('#'),
    decreases scope.len(),
{
    if scope.len() > 0 {
        let head = escape_of(scope.first());
        let tail = escaped(scope.drop_first());
        law_escaped_has_no_hash(scope.drop_first());
        if (head + tail).contains('#') {
            let i = choose|i: int| 0 <= i < (head + tail).len() && (head + tail)[i] == '#';
            if i < head.len() {
                assert(head[i] == '#');
            } else {
                assert(tail[i - head.len()] == '#');
                assert(tail.contains('#'));
            }
        }
    }
}

/// The key of a scope whose name holds neither `#` nor `%` is the scope's
/// name, `#`, and the binding's name.
pub proof fn law_plain_scope_key(scope: Seq<char>, name: Seq<char>)
    requires
        !scope.contains('#'),
        !scope.contains('%'),
    ensures
        scoped_key(scope, name) == scope + seq!['#'] + name,
{
    lemma_escaped_plain(scope);
}

/// A scope that imports another sees what the other exports, and only
/// that. Where `importer` searches itself and then `exporter`, does not
/// bind `name` itself, and `exporter` holds a value under `name`, both a
/// direct search and a resolution give the value if it is exported, and a
/// private-access failure if it is not, although the value is there. The
/// registry is one in which every key is in one state.
pub proof fn law_scoped_export<F>(
    factories: Map<Seq<char>, PendingView<F>>,
    values: Map<Seq<char>, ErasedView>,
    importer: Seq<char>,
    exporter: Seq<char>,
    name: Seq<char>,
    found: ScopedValueView,
)
    requires
        importer != exporter,
        found.scope == exporter,
        !values.contains_key(scoped_key(importer, name)),
        values.contains_key(scoped_key(exporter, name)),
        values[scoped_key(exporter, name)] == ErasedView::Scoped(found),
        !factories.contains_key(scoped_key(importer, name)),
        exclusive(factories, values),
    ensures
        ({
            let expected = if found.export {
                Ok::<ValueView, ErrorView>(found.v)
            } else {
                Err::<ValueView, ErrorView>(ErrorView::InjectPrivateProvider(name))
            };
            let scopes = seq![importer, exporter];
            &&& direct_search(values, importer, scopes, name, found.v.kind(), true, 0) == expected
            &&& top_search(factories, values, importer, scopes, name, found.v.kind(), 0)
                matches Some(end) && end.result == expected
        }),
{
    let scopes = seq![importer, exporter];
    reveal_with_fuel(direct_search, 3);
    reveal_with_fuel(top_search, 3);
    assert(scopes[0] == importer);
    assert(scopes[1] == exporter);
    assert(factories.remove(scoped_key(importer, name)) == factories);
}

/// A name that none of the searched scopes binds is not found, whatever
/// other scopes hold under it: the search ends in key-not-found, with the
/// scopes in the message, and leaves the registry as it is.
pub proof fn law_unreachable_scope<F>(
    factories: Map<Seq<char>, PendingView<F>>,
    values: Map<Seq<char>, ErasedView>,
    requester: Seq<char>,
    scopes: Seq<Seq<char>>,
    name: Seq<char>,
    kind: Kind,
    strict: bool,
    from: int,
)
    requires
        0 <= from <= scopes.len(),
        forall|i: int|
            0 <= i < scopes.len() ==> !values.contains_key(#[trigger] scoped_key(scopes[i], name))
                && !factories.contains_key(scoped_key(scopes[i], name)),
    ensures
        direct_search(values, requester, scopes, name, kind, strict, from) == Err::<
            ValueView,
            ErrorView,
        >(ErrorView::KeyNotFound(message::direct_scope_exhausted(name, scopes))),
        top_search(factories, values, requester, scopes, name, kind, from) == Some(
            Searched {
                result: Err::<ValueView, ErrorView>(
                    ErrorView::KeyNotFound(message::scope_exhausted(name, scopes)),
                ),
                factories,
                chain: Seq::empty(),
                active: Set::empty(),
            },
        ),
    decreases scopes.len() - from,
{
    if from < scopes.len() {
        let key = scoped_key(scopes[from], name);
        assert(!values.contains_key(key) && !factories.contains_key(key));
        assert(factories.remove(key) == factories);
        law_unreachable_scope(factories, values, requester, scopes, name, kind, strict, from + 1);
    }
}

/// A scope always sees its own bindings, exported or not: where the scope
/// holds a value under `name`, a search that starts at the scope gives it.
pub proof fn law_own_scope_access<F>(
    factories: Map<Seq<char>, PendingView<F>>,
    values: Map<Seq<char>, ErasedView>,
    scopes: Seq<Seq<char>>,
    name: Seq<char>,
    found: ScopedValueView,
)
    requires
        scopes.len() > 0,
        found.scope == scopes[0],
        values.contains_key(scoped_key(scopes[0], name)),
        values[scoped_key(scopes[0], name)] == ErasedView::Scoped(found),
        exclusive(factories, values),
    ensures
        direct_search(values, scopes[0], scopes, name, found.v.kind(), true, 0) == Ok::<
            ValueView,
            ErrorView,
        >(found.v),
        direct_search(values, scopes[0], scopes, name, found.v.kind(), false, 0) == Ok::<
            ValueView,
            ErrorView,
        >(found.v),
        top_search(factories, values, scopes[0], scopes, name, found.v.kind(), 0) matches Some(end)
            && end.result == Ok::<ValueView, ErrorView>(found.v),
{
}

/// Whether `leg` is the run of the factory that waits under `key`, handed
/// `handed`.
pub open spec fn leg_of<F>(
    leg: Leg<F>,
    factories: Map<Seq<char>, PendingView<F>>,
    key: Seq<char>,
    handed: Held<F>,
) -> bool {
    leg.key == key && leg.pending == factories[key] && leg.handed == handed
}

/// A search at the top judges the product of a factory as it judges a
/// value. Where the first scope has a factory waiting under the name, the
/// search runs it and ends with its outcome: the product if the requester
/// may see it, which it always may where the scope is its own; a
/// private-access failure if it may not; and any failure of the factory
/// but key-not-found as it is, a circular dependency among them.
pub proof fn law_top_search_judges_product<F>(
    factories: Map<Seq<char>, PendingView<F>>,
    values: Map<Seq<char>, ErasedView>,
    requester: Seq<char>,
    scopes: Seq<Seq<char>>,
    name: Seq<char>,
    kind: Kind,
    leg: Leg<F>,
)
    requires
        scopes.len() > 0,
        factories.contains_key(scoped_key(scopes[0], name)),
        factories[scoped_key(scopes[0], name)].tag() == TypeTag::Scoped(kind),
        leg_of(
            leg,
            factories,
            scoped_key(scopes[0], name),
            Held {
                factories: factories.remove(scoped_key(scopes[0], name)),
                values,
                chain: seq![scoped_key(scopes[0], name)],
                active: set![scoped_key(scopes[0], name)],
            },
        ),
        !(leg.outcome matches Err(ErrorView::KeyNotFound(_))),
        leg.outcome matches Ok(e) ==> e is Scoped,
    ensures
        top_traced(factories, values, requester, scopes, name, kind, 0, seq![leg]) matches Some(
            end,
        ) && end.held.factories == leg.left.factories && end.held.values == leg.left.values
            && end.result == (match narrow(leg.outcome) {
            Ok(found) => if found.export || found.scope == requester {
                Ok::<ValueView, ErrorView>(found.v)
            } else {
                Err::<ValueView, ErrorView>(ErrorView::InjectPrivateProvider(name))
            },
            Err(e) => Err::<ValueView, ErrorView>(e),
        }),
{
    assert(seq![leg][0] == leg);
}

/// A search within a session passes over the product of a factory that the
/// requester may not see, and keeps it. Where the last scope has a factory
/// waiting under the name and its product is private to another scope, the
/// search ends in key-not-found, with the scopes in the message, and the
/// registry and session are as the run has left them, the product bound to
/// its key.
pub proof fn law_nested_search_passes_over_private_product<F>(
    held: Held<F>,
    requester: Seq<char>,
    scopes: Seq<Seq<char>>,
    name: Seq<char>,
    kind: Kind,
    leg: Leg<F>,
    found: ScopedValueView,
)
    requires
        scopes.len() > 0,
        !held.active.contains(scoped_key(scopes.last(), name)),
        held.factories.contains_key(scoped_key(scopes.last(), name)),
        held.factories[scoped_key(scopes.last(), name)].tag() == TypeTag::Scoped(kind),
        leg_of(
            leg,
            held.factories,
            scoped_key(scopes.last(), name),
            Held {
                factories: held.factories.remove(scoped_key(scopes.last(), name)),
                values: held.values,
                chain: held.chain.push(scoped_key(scopes.last(), name)),
                active: held.active.insert(scoped_key(scopes.last(), name)),
            },
        ),
        leg.outcome == Ok::<ErasedView, ErrorView>(ErasedView::Scoped(found)),
        !found.visible_to(requester),
    ensures
        nested_traced(held, requester, scopes, name, kind, scopes.len() - 1, seq![leg]) == Some(
            Ended {
                result: Err::<ValueView, ErrorView>(
                    ErrorView::KeyNotFound(message::scope_exhausted(name, scopes)),
                ),
                held: leg.left,
            },
        ),
{
    reveal_with_fuel(nested_traced, 2);
    assert(seq![leg][0] == leg);
    assert(seq![leg].drop_first() =~= Seq::<Leg<F>>::empty());
}

} // verus!
