//! The name by which a config of type `C` is found.

use std::marker::PhantomData;

use vstd::prelude::*;

verus! {

/// The name of a config of type `C`, as config files give it.
pub struct ConfigId<C>(String, PhantomData<C>);

impl<C> View for ConfigId<C> {
    type V = Seq<char>;

    closed spec fn view(&self) -> Seq<char> {
        self.0@
    }
}

impl<C> ConfigId<C> {
    /// The id with the name.
    pub fn new(id: String) -> (config_id: Self)
        ensures
            config_id@ == id@,
    {
        ConfigId(id, PhantomData)
    }

    /// The name.
    pub fn as_str(&self) -> (name: &str)
        ensures
            name@ == self@,
    {
        self.0.as_str()
    }

    /// Gives up the id for its name.
    pub fn into_string(self) -> (name: String)
        ensures
            name@ == self@,
    {
        self.0
    }

    /// The name as text.
    pub fn to_string(&self) -> (name: String)
        ensures
            name@ == self@,
    {
        self.0.clone()
    }
}

impl<C> Clone for ConfigId<C> {
    fn clone(&self) -> (copy: Self)
        ensures
            copy@ == self@,
    {
        ConfigId(self.0.clone(), PhantomData)
    }
}

impl<C> PartialEq for ConfigId<C> {
    fn eq(&self, other: &Self) -> (equal: bool) {
        self.0 == other.0
    }
}

impl<C> vstd::std_specs::cmp::PartialEqSpecImpl for ConfigId<C> {
    open spec fn obeys_eq_spec() -> bool {
        true
    }

    open spec fn eq_spec(&self, other: &Self) -> bool {
        self@ == other@
    }
}

impl<C> Eq for ConfigId<C> {

}

impl<C> From<String> for ConfigId<C> {
    fn from(value: String) -> (config_id: Self) {
        ConfigId(value, PhantomData)
    }
}

impl<C> vstd::std_specs::convert::FromSpecImpl<String> for ConfigId<C> {
    open spec fn obeys_from_spec() -> bool {
        true
    }

    closed spec fn from_spec(value: String) -> Self {
        ConfigId(value, PhantomData)
    }
}

} // verus!
