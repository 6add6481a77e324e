//! The settings of a connection manager that hands out connections for
//! tests: each connection opens a transaction that is never committed.

use std::marker::PhantomData;
use vstd::prelude::*;
use vstd::std_specs::convert::IntoSpec;

verus! {

/// The settings of a manager of connections of type `T`.
#[derive(Debug)]
pub struct CustomConnectionManager<T> {
    database_url: String,
    _marker: PhantomData<T>,
}

impl<T> Clone for CustomConnectionManager<T> {
    fn clone(&self) -> (r: Self)
        ensures
            r.url() == self.url(),
    {
        CustomConnectionManager { database_url: self.database_url.clone(), _marker: PhantomData }
    }
}

impl<T> CustomConnectionManager<T> {
    /// The URL of the database that connections are made to.
    pub closed spec fn url(&self) -> Seq<char> {
        self.database_url@
    }

    /// Returns a new connection manager,
    /// which establishes connections to the given database URL.
    pub fn new<S: Into<String>>(database_url: S) -> (r: Self)
        ensures
            S::obeys_into_spec() ==> r.url() == database_url.into_spec()@,
    {
        CustomConnectionManager { database_url: database_url.into(), _marker: PhantomData }
    }

    /// The URL of the database that connections are made to.
    pub fn database_url(&self) -> (r: &str)
        ensures
            r@ == self.url(),
    {
        self.database_url.as_str()
    }
}

} // verus!
