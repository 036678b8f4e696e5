//! Per-module configuration records kept by the vault.
//!
//! A module's configuration is a value of a type that implements
//! [`ModuleConfig`]: the type names the scope the configuration belongs to
//! and the name it is stored under, and its default value is what a module
//! starts from before anything was stored.
use vstd::prelude::*;
use core::marker::PhantomData;
use crate::scopes::Scope;

verus! {

/// A module's configuration type.
pub trait ModuleConfig: Default {
    /// The scope the configuration belongs to.
    const SCOPE: Scope;
    /// The name the configuration is stored under within its scope.
    const CONFIG_NAME: &'static str;
}

/// A stored configuration row; `content` is the configuration as JSON text.
#[derive(Debug, Clone)]
pub struct ModuleConfigEntity {
    pub id: i32,
    pub scope: String,
    pub name: String,
    pub content: String,
}

/// Read the stored configuration of type `T`.
#[derive(Debug)]
pub struct FindConfig<T: ModuleConfig> {
    _phantom: PhantomData<T>,
}

impl<T: ModuleConfig> FindConfig<T> {
    /// The one value of this type: the read carries no data besides the type.
    pub closed spec fn request() -> Self {
        FindConfig { _phantom: PhantomData }
    }

    /// The read of `T`'s configuration.
    pub fn new() -> (r: Self)
        ensures
            r == Self::request(),
    {
        Self { _phantom: PhantomData }
    }
}

/// Replace the stored configuration of type `T` with `new_value`.
#[derive(Debug, Clone)]
pub struct UpdateConfig<T: ModuleConfig> {
    pub new_value: T,
}

} // verus!
