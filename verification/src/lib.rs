//! A registry for dependency injection. It builds named values on first
//! request, keeps them, finds dependency cycles while it resolves, and
//! divides its bindings into scopes with public and private names.
//!
//! A [`Di`] holds factories and values by key. A [`DiGuard`] is one
//! resolution session on it: it records the keys that are being resolved
//! and refuses one that comes back. A [`ScopedDi`] gives bindings the name
//! of a scope and searches the scopes that it imports; a [`ScopedDiGuard`]
//! does the same within a session, for the factories of a scope.
//!
//! The registry is owned by whoever works on it and passed on by value.
//! The contracts speak of it through [`model`] and [`search`], and [`laws`]
//! proves what holds over several operations.

pub mod di;
pub mod di_guard;
pub mod error;
pub mod factory;
pub mod laws;
pub mod message;
pub mod model;
pub mod pending;
pub mod scoped_di;
pub mod scoped_di_guard;
pub mod search;
pub mod value;

pub use di::{Di, Resolution};
pub use di_guard::DiGuard;
pub use error::Error;
pub use factory::Factory;
pub use pending::{Origin, Owner, Pending};
pub use scoped_di::ScopedDi;
pub use scoped_di_guard::ScopedDiGuard;
pub use value::{Erased, Kind, ScopedValue, TypeTag, Value};
