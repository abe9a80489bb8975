//! The two names of a config of type `C`: its label, and its numeric id.

use std::marker::PhantomData;

use vstd::prelude::*;

verus! {

/// The label of a config of type `C`, as data files give it.
pub struct ConfigLabel<C>(pub(crate) String, pub(crate) PhantomData<C>);

/// The numeric id of a config of type `C`, handed out by the indexer.
pub struct ConfigId<C>(pub(crate) u64, pub(crate) PhantomData<C>);

impl<C> View for ConfigLabel<C> {
    type V = Seq<char>;

    closed spec fn view(&self) -> Seq<char> {
        self.0@
    }
}

impl<C> View for ConfigId<C> {
    type V = u64;

    closed spec fn view(&self) -> u64 {
        self.0
    }
}

impl<C> ConfigLabel<C> {
    /// The text of the label.
    pub closed spec fn spec_text(&self) -> String {
        self.0
    }

    /// The label with the text.
    pub fn new(label: String) -> (config_label: Self)
        ensures
            config_label@ == label@,
            config_label.spec_text() == label,
    {
        ConfigLabel(label, PhantomData)
    }

    /// The text of the label.
    pub fn as_str(&self) -> (label: &str)
        ensures
            label@ == self@,
    {
        self.0.as_str()
    }

    /// Gives up the label for its text.
    pub fn into_string(self) -> (label: String)
        ensures
            label@ == self@,
    {
        self.0
    }
}

impl<C> ConfigId<C> {
    /// The id with the number.
    pub fn new(id: u64) -> (config_id: Self)
        ensures
            config_id@ == id,
    {
        ConfigId(id, PhantomData)
    }

    /// The number of the id.
    pub fn index(&self) -> (id: u64)
        ensures
            id == self@,
    {
        self.0
    }
}

impl<C> Clone for ConfigLabel<C> {
    fn clone(&self) -> (copy: Self)
        ensures
            copy@ == self@,
    {
        ConfigLabel(self.0.clone(), PhantomData)
    }
}

impl<C> Clone for ConfigId<C> {
    fn clone(&self) -> (copy: Self)
        ensures
            copy@ == self@,
    {
        ConfigId(self.0, PhantomData)
    }
}

impl<C> Copy for ConfigId<C> {

}

impl<C> PartialEq for ConfigLabel<C> {
    fn eq(&self, other: &Self) -> (equal: bool) {
        self.0 == other.0
    }
}

impl<C> vstd::std_specs::cmp::PartialEqSpecImpl for ConfigLabel<C> {
    open spec fn obeys_eq_spec() -> bool {
        true
    }

    open spec fn eq_spec(&self, other: &Self) -> bool {
        self@ == other@
    }
}

impl<C> Eq for ConfigLabel<C> {

}

impl<C> PartialEq for ConfigId<C> {
    fn eq(&self, other: &Self) -> (equal: bool) {
        self.0 == other.0
    }
}

impl<C> vstd::std_specs::cmp::PartialEqSpecImpl for ConfigId<C> {
    open spec fn obeys_eq_spec() -> bool {
        true
    }

    open spec fn eq_spec(&self, other: &Self) -> bool {
        self@ == other@
    }
}

impl<C> Eq for ConfigId<C> {

}

impl<C> From<String> for ConfigLabel<C> {
    fn from(value: String) -> (config_label: Self) {
        ConfigLabel(value, PhantomData)
    }
}

impl<C> vstd::std_specs::convert::FromSpecImpl<String> for ConfigLabel<C> {
    open spec fn obeys_from_spec() -> bool {
        true
    }

    closed spec fn from_spec(value: String) -> Self {
        ConfigLabel(value, PhantomData)
    }
}

} // verus!
