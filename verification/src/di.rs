use vstd::hash_map::StringHashMap;
use vstd::prelude::*;
use vstd::string::StringExecFns;

use crate::di_guard::DiGuard;
use crate::error::Error;
use crate::factory::Factory;
use crate::message;
use crate::model;
use crate::model::{viewed, ResolutionView};
use crate::pending::{
    Origin, OriginView, Owner, OwnerView, Pending, PendingTable, PendingView,
};
use crate::scoped_di::{names_of, ScopedDi};
use crate::scoped_di_guard::ScopedDiGuard;
use crate::value::{Erased, ErasedView, Kind, ScopedValue, TypeTag, Value};

verus! {

/// What the first half of a resolution hands back: a value that is ready,
/// or a factory that the caller is to run.
pub enum Resolution<F> {
    Ready(Erased),
    Build(Pending<F>),
}

impl<F> View for Resolution<F> {
    type V = ResolutionView<F>;

    open spec fn view(&self) -> ResolutionView<F> {
        match self {
            Resolution::Ready(e) => ResolutionView::Ready(e@),
            Resolution::Build(p) => ResolutionView::Build(p@),
        }
    }
}

/// The registry: the factories that wait to be run, and the values that are
/// there already, each by key. A key is in one state: bound to a factory,
/// bound to a value, or not bound. Each registration and each product of a
/// factory takes the place of whatever the key was bound to.
pub struct Di<F> {
    factory_map: PendingTable<F>,
    value_map: StringHashMap<Erased>,
}

impl<F> Di<F> {
    /// The values that are bound, by key.
    pub closed spec fn values(&self) -> Map<Seq<char>, ErasedView> {
        Map::new(|k: Seq<char>| self.value_map@.contains_key(k), |k: Seq<char>| self.value_map@[k]@)
    }

    /// The factories that wait, by key.
    pub closed spec fn factories(&self) -> Map<Seq<char>, PendingView<F>> {
        self.factory_map@
    }

    /// Whether every key is in one state: no key is bound both to a
    /// factory and to a value. A new registry is so, and every operation
    /// keeps it so.
    pub open spec fn exclusive(&self) -> bool {
        model::exclusive(self.factories(), self.values())
    }

    /// A registry without bindings.
    pub fn new() -> (di: Self)
        ensures
            di.values() == Map::<Seq<char>, ErasedView>::empty(),
            di.factories() == Map::<Seq<char>, PendingView<F>>::empty(),
            di.exclusive(),
    {
        let di = Di { factory_map: PendingTable::new(), value_map: StringHashMap::new() };
        assert(di.values() =~= Map::<Seq<char>, ErasedView>::empty());
        di
    }

    /// The scope `name` on this registry, which imports the scopes `deps`.
    pub fn scope(self, name: &str, deps: &[&str]) -> (scope: ScopedDi<F>)
        ensures
            scope.di() == self,
            scope.name() == name@,
            scope.search_seq() == seq![name@] + names_of(deps@),
    {
        ScopedDi::new(self, name, deps)
    }

    /// Whether `name` is bound, to a factory or to a value. This never
    /// fails; like every operation of the registry it returns a result.
    pub fn contains(&self, name: &str) -> (r: Result<bool, Error>)
        ensures
            r == Ok::<bool, Error>(
                self.factories().contains_key(name@) || self.values().contains_key(name@),
            ),
    {
        Ok(self.factory_map.contains(name) || self.value_map.contains_key(name))
    }

    /// Binds `name` to `value`, in place of whatever it was bound to: a
    /// value that it held is replaced, and a factory that waited under it
    /// is dropped without being run.
    pub fn register_value(&mut self, name: &str, value: Erased) -> (r: Result<(), Error>)
        ensures
            r is Ok,
            final(self).values() == old(self).values().insert(name@, value@),
            final(self).factories() == old(self).factories().remove(name@),
            old(self).exclusive() ==> final(self).exclusive(),
    {
        let _ = self.factory_map.take(name);
        self.value_map.insert(String::from_str(name), value);
        assert(self.values() =~= old(self).values().insert(name@, value@));
        Ok(())
    }

    /// Binds `name` to the waiting factory `pending`, in place of whatever
    /// it was bound to: a factory that waited under it is dropped without
    /// being run, and a value that it held is forgotten.
    pub fn register_pending(&mut self, name: &str, pending: Pending<F>) -> (r: Result<(), Error>)
        ensures
            r is Ok,
            final(self).factories() == old(self).factories().insert(name@, pending@),
            final(self).values() == old(self).values().remove(name@),
            old(self).exclusive() ==> final(self).exclusive(),
    {
        self.value_map.remove(name);
        assert(self.values() =~= old(self).values().remove(name@));
        self.factory_map.insert(String::from_str(name), pending);
        Ok(())
    }

    /// Binds `name` to a factory that has promised a plain value of kind
    /// `kind`, in place of whatever it was bound to.
    pub fn register_factory(&mut self, name: &str, kind: Kind, factory: F) -> (r: Result<(), Error>)
        ensures
            r is Ok,
            final(self).factories() == old(self).factories().insert(
                name@,
                PendingView { kind, origin: OriginView::Plain, factory },
            ),
            final(self).values() == old(self).values().remove(name@),
            old(self).exclusive() ==> final(self).exclusive(),
    {
        self.register_pending(name, Pending { kind, origin: Origin::Plain, factory })
    }

    /// Looks `name` up among the values, without regard to factories.
    pub fn inject_value(&self, name: &str, tag: TypeTag) -> (r: Result<Erased, Error>)
        ensures
            viewed(r) == model::direct_lookup(self.values(), name@, tag),
    {
        match self.value_map.get(name) {
            Some(found) => {
                if found.tag() == tag {
                    Ok(found.clone())
                } else {
                    Err(Error::TypeMismatch(message::direct_type_mismatch_text(name)))
                }
            },
            None => Err(Error::KeyNotFound(message::direct_key_not_found_text(name))),
        }
    }

    /// The first half of the resolution of `name`, within a chain of keys
    /// `chain` that holds `name` already. A factory that waits under the
    /// name leaves the registry, whether or not it can be handed out.
    pub fn begin_inject(&mut self, name: &str, tag: TypeTag, chain: &Vec<String>) -> (r: Result<
        Resolution<F>,
        Error,
    >)
        ensures
            viewed(r) == model::begin(
                old(self).factories(),
                old(self).values(),
                name@,
                tag,
                chain.deep_view(),
            ),
            final(self).factories() == old(self).factories().remove(name@),
            final(self).values() == old(self).values(),
            old(self).exclusive() ==> final(self).exclusive(),
    {
        match self.factory_map.take(name) {
            Some(pending) => {
                if pending.tag() == tag {
                    Ok(Resolution::Build(pending))
                } else {
                    Err(Error::TypeMismatch(message::factory_type_mismatch_text(name)))
                }
            },
            None => {
                match self.value_map.get(name) {
                    Some(found) => {
                        if found.tag() == tag {
                            Ok(Resolution::Ready(found.clone()))
                        } else {
                            Err(Error::TypeMismatch(message::value_type_mismatch_text(name)))
                        }
                    },
                    None => Err(Error::KeyNotFound(message::key_not_found_text(name, chain))),
                }
            },
        }
    }

    /// The second half of the resolution of `name`: takes what the factory
    /// handed back. A product of the promised kind is bound to the name, in
    /// place of whatever the name was bound to, and returned. Anything else
    /// is a failure and leaves the registry as it is, so that the name
    /// stays without a factory.
    pub fn finish_inject(
        &mut self,
        name: &str,
        kind: Kind,
        owner: Option<Owner>,
        built: Result<Value, Error>,
    ) -> (r: Result<Erased, Error>)
        ensures
            viewed(r) == model::settle(
                name@,
                kind,
                match owner {
                    Some(o) => Some(o@),
                    None => None,
                },
                viewed(built),
            ),
            final(self).values() == model::record(old(self).values(), name@, viewed(r)),
            final(self).factories() == model::retire(old(self).factories(), name@, viewed(r)),
            old(self).exclusive() ==> final(self).exclusive(),
    {
        match built {
            Err(e) => Err(e),
            Ok(v) => {
                if v.kind() == kind {
                    let sealed = match owner {
                        Some(o) => Erased::Scoped(
                            ScopedValue { scope: o.scope, v, export: o.export },
                        ),
                        None => Erased::Plain(v),
                    };
                    let _ = self.factory_map.take(name);
                    self.value_map.insert(String::from_str(name), sealed.clone());
                    assert(self.values() =~= old(self).values().insert(name@, sealed@));
                    Ok(sealed)
                } else {
                    Err(Error::TypeMismatch(message::value_type_mismatch_text(name)))
                }
            },
        }
    }
}

impl<F: Factory> Di<F> {
    /// Resolves `name` with type `tag` in a session of its own.
    ///
    /// A factory that waits under the name leaves the registry. Where no
    /// factory has to be run, the result is that of [`model::resolved`] for
    /// a chain that holds the name alone, and the values stay as they are.
    ///
    /// Where a factory has to be run, it is run by one call of its own
    /// method, which is handed a session that holds the name alone, on the
    /// registry with the factory gone, for a factory of a scope under that
    /// scope's name and search sequence. What the call returns is settled
    /// as [`model::settle`] says: a product of the promised kind is bound
    /// to the name, with the owner that the factory's origin names, and
    /// returned. The registry is otherwise as the call has left it.
    pub fn inject(&mut self, name: &str, tag: TypeTag) -> (r: Result<Erased, Error>)
        ensures
            viewed(r) matches Ok(e) ==> {
                &&& e.tag() == tag
                &&& final(self).values().contains_key(name@)
                &&& final(self).values()[name@] == e
                &&& !final(self).factories().contains_key(name@)
            },
            match model::resolved(
                old(self).factories(),
                old(self).values(),
                name@,
                tag,
                seq![name@],
            ) {
                Some(outcome) => {
                    &&& viewed(r) == outcome
                    &&& final(self).factories() == old(self).factories().remove(name@)
                    &&& final(self).values() == old(self).values()
                    &&& old(self).exclusive() ==> final(self).exclusive()
                },
                None => ({
                    let pending = old(self).factories()[name@];
                    match pending.origin {
                        OriginView::Plain => exists|handed: &mut DiGuard<F>, built: Result<Value, Error>|
                            {
                                &&& mut_ref_current(handed).chain() == seq![name@]
                                &&& mut_ref_current(handed).active() == set![name@]
                                &&& mut_ref_current(handed).factories() == old(
                                    self,
                                ).factories().remove(name@)
                                &&& mut_ref_current(handed).values() == old(self).values()
                                &&& #[trigger] call_ensures(
                                    F::build,
                                    (pending.factory, handed),
                                    built,
                                )
                                &&& viewed(r) == model::settle(
                                    name@,
                                    pending.kind,
                                    None,
                                    viewed(built),
                                )
                                &&& final(self).factories() == model::retire(
                                    mut_ref_future(handed).factories(),
                                    name@,
                                    viewed(r),
                                )
                                &&& final(self).values() == model::record(
                                    mut_ref_future(handed).values(),
                                    name@,
                                    viewed(r),
                                )
                            },
                        OriginView::Scoped { scope, search_seq, export } => exists|handed: &mut ScopedDiGuard<F>, built: Result<Value, Error>|
                            {
                                &&& mut_ref_current(handed).name() == scope
                                &&& mut_ref_current(handed).search_seq() == search_seq
                                &&& mut_ref_current(handed).guard().chain() == seq![name@]
                                &&& mut_ref_current(handed).guard().active() == set![name@]
                                &&& mut_ref_current(handed).guard().factories() == old(
                                    self,
                                ).factories().remove(name@)
                                &&& mut_ref_current(handed).guard().values() == old(self).values()
                                &&& #[trigger] call_ensures(
                                    F::build_scoped,
                                    (pending.factory, handed),
                                    built,
                                )
                                &&& viewed(r) == model::settle(
                                    name@,
                                    pending.kind,
                                    Some(OwnerView { scope, export }),
                                    viewed(built),
                                )
                                &&& final(self).factories() == model::retire(
                                    mut_ref_future(handed).guard().factories(),
                                    name@,
                                    viewed(r),
                                )
                                &&& final(self).values() == model::record(
                                    mut_ref_future(handed).guard().values(),
                                    name@,
                                    viewed(r),
                                )
                            },
                    }
                }),
            },
    {
        let mut di = Di::new();
        core::mem::swap(self, &mut di);
        let mut guard = DiGuard::new(di);
        assert(Seq::<Seq<char>>::empty().push(name@) =~= seq![name@]);
        let r = guard.inject(name, tag);
        let mut di = guard.into_di();
        core::mem::swap(self, &mut di);
        r
    }
}

} // verus!
