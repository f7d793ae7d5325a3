use vstd::prelude::*;

use crate::error::{Error, ErrorView};
use crate::message;
use crate::model;
use crate::model::viewed;
use crate::pending::PendingView;
use crate::value::{ErasedView, Kind, ScopedValue, ScopedValueView, TypeTag, Value, ValueView};

verus! {

/// How one character of a scope's name is written in a key: `#` as `%23`,
/// `%` as `%25`, and any other character as itself.
pub open spec fn escape_of(c: char) -> Seq<char> {
    if c == '#' {
        seq!['%', '2', '3']
    } else if c == '%' {
        seq!['%', '2', '5']
    } else {
        seq![c]
    }
}

/// How a scope's name is written in a key: character by character as
/// [`escape_of`] says. What comes out holds no `#`.
pub open spec fn escaped(scope: Seq<char>) -> Seq<char>
    decreases scope.len(),
{
    if scope.len() == 0 {
        Seq::empty()
    } else {
        escape_of(scope.first()) + escaped(scope.drop_first())
    }
}

/// The key under which the registry holds the binding `name` of the scope
/// `scope`: the scope's name as [`escaped`] writes it, `#`, and the
/// binding's name as it is. The first `#` of a key so ends the scope's
/// name, and two bindings share a key only if they are the same binding of
/// the same scope.
pub open spec fn scoped_key(scope: Seq<char>, name: Seq<char>) -> Seq<char> {
    escaped(scope) + seq!['#'] + name
}

/// A longer name is written as the shorter one, and then its last
/// character.
pub proof fn lemma_escaped_push(scope: Seq<char>, c: char)
    ensures
        escaped(scope.push(c)) == escaped(scope) + escape_of(c),
    decreases scope.len(),
{
    if scope.len() == 0 {
        let one = scope.push(c);
        assert(one.first() == c);
        assert(one.drop_first() == Seq::<char>::empty());
        assert(escaped(one.drop_first()) == Seq::<char>::empty());
        assert(escape_of(c) + Seq::<char>::empty() == escape_of(c));
        assert(Seq::<char>::empty() + escape_of(c) == escape_of(c));
    } else {
        assert(scope.push(c).drop_first() == scope.drop_first().push(c));
        assert(scope.push(c).first() == scope.first());
        lemma_escaped_push(scope.drop_first(), c);
        assert(escape_of(scope.first()) + (escaped(scope.drop_first()) + escape_of(c)) == (
        escape_of(scope.first()) + escaped(scope.drop_first())) + escape_of(c));
    }
}

/// Two bindings share a key only if they are the same binding of the same
/// scope.
pub proof fn lemma_scoped_key_injective(
    scope: Seq<char>,
    name: Seq<char>,
    other_scope: Seq<char>,
    other_name: Seq<char>,
)
    requires
        scoped_key(scope, name) == scoped_key(other_scope, other_name),
    ensures
        scope == other_scope,
        name == other_name,
    decreases scope.len(),
{
    let key = scoped_key(scope, name);
    let other = scoped_key(other_scope, other_name);
    if scope.len() == 0 {
        assert(key[0] == '#');
        if other_scope.len() > 0 {
            assert(other[0] == escape_of(other_scope.first())[0]);
        }
        assert(other_scope == Seq::<char>::empty());
        assert(name == key.subrange(1, key.len() as int));
        assert(other_name == other.subrange(1, other.len() as int));
    } else {
        let head = escape_of(scope.first());
        assert(key[0] == head[0]);
        if other_scope.len() == 0 {
            assert(other[0] == '#');
        }
        let other_head = escape_of(other_scope.first());
        assert(other[0] == other_head[0]);
        if head.len() == 3 {
            assert(key[2] == head[2]);
        }
        if other_head.len() == 3 {
            assert(other[2] == other_head[2]);
        }
        assert(scope.first() == other_scope.first());
        let rest = scoped_key(scope.drop_first(), name);
        let other_rest = scoped_key(other_scope.drop_first(), other_name);
        assert(rest == key.subrange(head.len() as int, key.len() as int));
        assert(other_rest == other.subrange(head.len() as int, other.len() as int));
        lemma_scoped_key_injective(
            scope.drop_first(),
            name,
            other_scope.drop_first(),
            other_name,
        );
        assert(scope == seq![scope.first()] + scope.drop_first());
        assert(other_scope == seq![other_scope.first()] + other_scope.drop_first());
    }
}

/// A name without `#` and `%` is written as it is.
pub proof fn lemma_escaped_plain(scope: Seq<char>)
    requires
        !scope.contains('#'),
        !scope.contains('%'),
    ensures
        escaped(scope) == scope,
    decreases scope.len(),
{
    if scope.len() > 0 {
        let rest = scope.drop_first();
        assert(scope.contains(scope[0]));
        assert forall|i: int| 0 <= i < rest.len() implies rest[i] != '#' && rest[i] != '%' by {
            assert(scope.contains(scope[i + 1]));
        }
        lemma_escaped_plain(rest);
        assert(seq![scope.first()] + rest == scope);
    }
}

/// The outcome of a lookup that asked for a scoped value, as a scoped
/// value. Such a lookup never hands out a plain value.
pub open spec fn narrow(outcome: Result<ErasedView, ErrorView>) -> Result<
    ScopedValueView,
    ErrorView,
> {
    match outcome {
        Ok(ErasedView::Scoped(found)) => Ok(found),
        Ok(ErasedView::Plain(_)) => arbitrary(),
        Err(e) => Err(e),
    }
}

/// What a scoped search makes of the outcome for one of its scopes: the
/// result that ends the search, or `None` where the search goes on to the
/// next scope.
///
/// A value that the requester may see ends the search. A value that it may
/// not see ends a strict search with a private-access failure, and lets
/// any other search go on. A key that is not found lets the search go on.
/// Any other failure ends it.
pub open spec fn judge(
    requester: Seq<char>,
    name: Seq<char>,
    strict: bool,
    outcome: Result<ScopedValueView, ErrorView>,
) -> Option<Result<ValueView, ErrorView>> {
    match outcome {
        Ok(found) => if found.visible_to(requester) {
            Some(Ok(found.v))
        } else if strict {
            Some(Err(ErrorView::InjectPrivateProvider(name)))
        } else {
            None
        },
        Err(ErrorView::KeyNotFound(_)) => None,
        Err(e) => Some(Err(e)),
    }
}

/// A verdict, with what it holds taken by its view.
pub open spec fn verdict_view(verdict: Option<Result<Value, Error>>) -> Option<
    Result<ValueView, ErrorView>,
> {
    match verdict {
        Some(r) => Some(viewed(r)),
        None => None,
    }
}

/// Decides what a scoped search makes of the outcome for one of its scopes,
/// as [`judge`] says.
pub fn judge_outcome(
    requester: &String,
    name: &str,
    strict: bool,
    outcome: Result<ScopedValue, Error>,
) -> (verdict: Option<Result<Value, Error>>)
    ensures
        verdict_view(verdict) == judge(requester@, name@, strict, viewed(outcome)),
{
    match outcome {
        Ok(found) => {
            if found.visible_to(requester) {
                Some(Ok(found.v))
            } else if strict {
                Some(Err(Error::InjectPrivateProvider(name.to_owned())))
            } else {
                None
            }
        },
        Err(Error::KeyNotFound(_)) => None,
        Err(e) => Some(Err(e)),
    }
}

/// The result of a direct search for `name` through the scopes from
/// position `from` on: each scope's key is looked up among the values, and
/// [`judge`] says whether the search ends there.
pub open spec fn direct_search(
    values: Map<Seq<char>, ErasedView>,
    requester: Seq<char>,
    scopes: Seq<Seq<char>>,
    name: Seq<char>,
    kind: Kind,
    strict: bool,
    from: int,
) -> Result<ValueView, ErrorView>
    decreases scopes.len() - from,
{
    if from < 0 || from >= scopes.len() {
        Err(ErrorView::KeyNotFound(message::direct_scope_exhausted(name, scopes)))
    } else {
        let key = scoped_key(scopes[from], name);
        let outcome = model::direct_lookup(values, key, TypeTag::Scoped(kind));
        match judge(requester, name, strict, narrow(outcome)) {
            Some(r) => r,
            None => direct_search(values, requester, scopes, name, kind, strict, from + 1),
        }
    }
}

/// Where a search that runs no factory has ended: its result, and the
/// registry and session that it leaves. The values are never changed by
/// such a search.
pub struct Searched<F> {
    pub result: Result<ValueView, ErrorView>,
    pub factories: Map<Seq<char>, PendingView<F>>,
    pub chain: Seq<Seq<char>>,
    pub active: Set<Seq<char>>,
}

/// A search for `name` where each scope is resolved in a session of its
/// own and a private binding ends the search, from position `from` on. It
/// is `None` where a factory has to be run before the search has ended.
/// Such a search leaves no session behind: chain and set of its end are
/// empty.
pub open spec fn top_search<F>(
    factories: Map<Seq<char>, PendingView<F>>,
    values: Map<Seq<char>, ErasedView>,
    requester: Seq<char>,
    scopes: Seq<Seq<char>>,
    name: Seq<char>,
    kind: Kind,
    from: int,
) -> Option<Searched<F>>
    decreases scopes.len() - from,
{
    if from < 0 || from >= scopes.len() {
        Some(
            Searched {
                result: Err(ErrorView::KeyNotFound(message::scope_exhausted(name, scopes))),
                factories,
                chain: Seq::empty(),
                active: Set::empty(),
            },
        )
    } else {
        let key = scoped_key(scopes[from], name);
        match model::resolved(factories, values, key, TypeTag::Scoped(kind), seq![key]) {
            None => None,
            Some(outcome) => match judge(requester, name, true, narrow(outcome)) {
                Some(result) => Some(
                    Searched {
                        result,
                        factories: factories.remove(key),
                        chain: Seq::empty(),
                        active: Set::empty(),
                    },
                ),
                None => top_search(
                    factories.remove(key),
                    values,
                    requester,
                    scopes,
                    name,
                    kind,
                    from + 1,
                ),
            },
        }
    }
}

/// A search for `name` within one session, where a private binding lets
/// the search go on, from position `from` on. Each scope's key enters the
/// session as it is tried, and a key that the session holds already ends
/// the search as a circular dependency. It is `None` where a factory has to
/// be run before the search has ended.
pub open spec fn nested_search<F>(
    factories: Map<Seq<char>, PendingView<F>>,
    values: Map<Seq<char>, ErasedView>,
    chain: Seq<Seq<char>>,
    active: Set<Seq<char>>,
    requester: Seq<char>,
    scopes: Seq<Seq<char>>,
    name: Seq<char>,
    kind: Kind,
    from: int,
) -> Option<Searched<F>>
    decreases scopes.len() - from,
{
    if from < 0 || from >= scopes.len() {
        Some(
            Searched {
                result: Err(ErrorView::KeyNotFound(message::scope_exhausted(name, scopes))),
                factories,
                chain,
                active,
            },
        )
    } else {
        let key = scoped_key(scopes[from], name);
        if active.contains(key) {
            Some(
                Searched {
                    result: Err(
                        ErrorView::CircularDependency(message::circular_dependency(key, chain)),
                    ),
                    factories,
                    chain,
                    active,
                },
            )
        } else {
            match model::resolved(factories, values, key, TypeTag::Scoped(kind), chain.push(key)) {
                None => None,
                Some(outcome) => match judge(requester, name, false, narrow(outcome)) {
                    Some(result) => Some(
                        Searched {
                            result,
                            factories: factories.remove(key),
                            chain: chain.push(key),
                            active: active.insert(key),
                        },
                    ),
                    None => nested_search(
                        factories.remove(key),
                        values,
                        chain.push(key),
                        active.insert(key),
                        requester,
                        scopes,
                        name,
                        kind,
                        from + 1,
                    ),
                },
            }
        }
    }
}

/// A registry and a session as a search finds or leaves them.
#[verifier::ext_equal]
pub struct Held<F> {
    pub factories: Map<Seq<char>, PendingView<F>>,
    pub values: Map<Seq<char>, ErasedView>,
    pub chain: Seq<Seq<char>>,
    pub active: Set<Seq<char>>,
}

/// One run of a factory in the course of a search: the key that was
/// resolved, the factory that waited under it, the registry and session
/// that the factory was handed, the outcome of the resolution of the key,
/// and the registry and session once that outcome was recorded.
#[verifier::ext_equal]
pub struct Leg<F> {
    pub key: Seq<char>,
    pub pending: PendingView<F>,
    pub handed: Held<F>,
    pub outcome: Result<ErasedView, ErrorView>,
    pub left: Held<F>,
}

/// Where a search has ended: its result, and the registry and session that
/// it leaves.
#[verifier::ext_equal]
pub struct Ended<F> {
    pub result: Result<ValueView, ErrorView>,
    pub held: Held<F>,
}

/// The search of [`top_search`], with the runs of factories that it has
/// made given as `legs`, in order. Wherever a scope has a factory waiting
/// under the name, the next leg is that factory's run: it was handed a
/// session that holds the scope's key alone, on the registry without the
/// factory, and the search goes on from the outcome and the registry of
/// the leg. The search ends as [`judge`] says of the first outcome that
/// is not passed over. It is `None` where the legs are not those of the
/// search: too few, too many, or not of the right keys and factories.
pub open spec fn top_traced<F>(
    factories: Map<Seq<char>, PendingView<F>>,
    values: Map<Seq<char>, ErasedView>,
    requester: Seq<char>,
    scopes: Seq<Seq<char>>,
    name: Seq<char>,
    kind: Kind,
    from: int,
    legs: Seq<Leg<F>>,
) -> Option<Ended<F>>
    decreases scopes.len() - from,
{
    let here = Held { factories, values, chain: Seq::empty(), active: Set::empty() };
    if from < 0 || from >= scopes.len() {
        if legs.len() == 0 {
            Some(
                Ended {
                    result: Err(ErrorView::KeyNotFound(message::scope_exhausted(name, scopes))),
                    held: here,
                },
            )
        } else {
            None
        }
    } else {
        let key = scoped_key(scopes[from], name);
        match model::resolved(factories, values, key, TypeTag::Scoped(kind), seq![key]) {
            Some(outcome) => match judge(requester, name, true, narrow(outcome)) {
                Some(result) => if legs.len() == 0 {
                    Some(
                        Ended {
                            result,
                            held: Held {
                                factories: factories.remove(key),
                                values,
                                chain: Seq::empty(),
                                active: Set::empty(),
                            },
                        },
                    )
                } else {
                    None
                },
                None => top_traced(
                    factories.remove(key),
                    values,
                    requester,
                    scopes,
                    name,
                    kind,
                    from + 1,
                    legs,
                ),
            },
            None => if legs.len() > 0 && legs[0].key == key && legs[0].pending == factories[key]
                && legs[0].handed == (Held {
                factories: factories.remove(key),
                values,
                chain: seq![key],
                active: set![key],
            }) {
                match judge(requester, name, true, narrow(legs[0].outcome)) {
                    Some(result) => if legs.len() == 1 {
                        Some(
                            Ended {
                                result,
                                held: Held {
                                    factories: legs[0].left.factories,
                                    values: legs[0].left.values,
                                    chain: Seq::empty(),
                                    active: Set::empty(),
                                },
                            },
                        )
                    } else {
                        None
                    },
                    None => top_traced(
                        legs[0].left.factories,
                        legs[0].left.values,
                        requester,
                        scopes,
                        name,
                        kind,
                        from + 1,
                        legs.drop_first(),
                    ),
                }
            } else {
                None
            },
        }
    }
}

/// The search of [`nested_search`], with the runs of factories that it has
/// made given as `legs`, in order. Wherever a scope has a factory waiting
/// under the name, the next leg is that factory's run: it was handed the
/// session with the scope's key entered, on the registry without the
/// factory, and the search goes on from the outcome, the registry and the
/// session of the leg. The search ends as [`judge`] says of the first
/// outcome that is not passed over, or with a circular dependency at a key
/// that the session holds already. It is `None` where the legs are not
/// those of the search.
pub open spec fn nested_traced<F>(
    held: Held<F>,
    requester: Seq<char>,
    scopes: Seq<Seq<char>>,
    name: Seq<char>,
    kind: Kind,
    from: int,
    legs: Seq<Leg<F>>,
) -> Option<Ended<F>>
    decreases scopes.len() - from,
{
    if from < 0 || from >= scopes.len() {
        if legs.len() == 0 {
            Some(
                Ended {
                    result: Err(ErrorView::KeyNotFound(message::scope_exhausted(name, scopes))),
                    held,
                },
            )
        } else {
            None
        }
    } else {
        let key = scoped_key(scopes[from], name);
        let entered = Held {
            factories: held.factories.remove(key),
            values: held.values,
            chain: held.chain.push(key),
            active: held.active.insert(key),
        };
        if held.active.contains(key) {
            if legs.len() == 0 {
                Some(
                    Ended {
                        result: Err(
                            ErrorView::CircularDependency(
                                message::circular_dependency(key, held.chain),
                            ),
                        ),
                        held,
                    },
                )
            } else {
                None
            }
        } else {
            match model::resolved(
                held.factories,
                held.values,
                key,
                TypeTag::Scoped(kind),
                entered.chain,
            ) {
                Some(outcome) => match judge(requester, name, false, narrow(outcome)) {
                    Some(result) => if legs.len() == 0 {
                        Some(Ended { result, held: entered })
                    } else {
                        None
                    },
                    None => nested_traced(entered, requester, scopes, name, kind, from + 1, legs),
                },
                None => if legs.len() > 0 && legs[0].key == key && legs[0].pending
                    == held.factories[key] && legs[0].handed == entered {
                    match judge(requester, name, false, narrow(legs[0].outcome)) {
                        Some(result) => if legs.len() == 1 {
                            Some(Ended { result, held: legs[0].left })
                        } else {
                            None
                        },
                        None => nested_traced(
                            legs[0].left,
                            requester,
                            scopes,
                            name,
                            kind,
                            from + 1,
                            legs.drop_first(),
                        ),
                    }
                } else {
                    None
                },
            }
        }
    }
}

} // verus!
