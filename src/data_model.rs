//! The data model a schema is built from, and the capabilities of the store.
use vstd::prelude::*;

verus! {

/// The scalar kinds a model field can hold.
#[derive(Clone, Copy, Debug, PartialEq, Eq, Structural)]
pub enum ScalarType {
    Text,
    Int,
    Boolean,
    DateTime,
}

/// A field of a model.
pub struct ModelField {
    pub name: String,
    pub scalar: ScalarType,
    /// A value must be given on create.
    pub is_required: bool,
    /// The field addresses exactly one record.
    pub is_unique: bool,
    /// The store sets the field itself; it is never written by a client.
    pub is_read_only: bool,
}

/// A record shape of the data model.
pub struct Model {
    pub name: String,
    pub fields: Vec<ModelField>,
    /// An embedded model lives only inside other models' records.
    pub is_embedded: bool,
}

/// The ordered collection of models. A model is identified by its position.
pub struct InternalDataModel {
    pub models: Vec<Model>,
}

/// An optional filter feature of the backing store.
#[derive(Clone, Copy, Debug, PartialEq, Eq, Structural)]
pub enum Capability {
    /// `_lt` / `_gt` filters on integer and date fields.
    ComparisonFilters,
    /// `_contains` / `_starts_with` filters on text fields.
    TextFilters,
}

/// The set of enabled optional features.
pub struct SupportedCapabilities {
    pub capabilities: Vec<Capability>,
}

/// A unique-selector argument can be built for the model.
pub open spec fn has_unique_key(m: Model) -> bool {
    exists|i: int| 0 <= i < m.fields@.len() && (#[trigger] m.fields@[i]).is_unique
}

/// A client can write at least one field of the model.
pub open spec fn has_settable_field(m: Model) -> bool {
    exists|i: int| 0 <= i < m.fields@.len() && !(#[trigger] m.fields@[i]).is_read_only
}

impl SupportedCapabilities {
    pub open spec fn has_spec(&self, c: Capability) -> bool {
        self.capabilities@.contains(c)
    }

    /// Whether the feature is enabled.
    pub fn has(&self, c: Capability) -> (r: bool)
        ensures
            r == self.has_spec(c),
    {
        let mut i: usize = 0;
        while i < self.capabilities.len()
            invariant
                i <= self.capabilities@.len(),
                forall|j: int| 0 <= j < i ==> self.capabilities@[j] != c,
            decreases self.capabilities@.len() - i,
        {
            if self.capabilities[i] == c {
                return true;
            }
            i = i + 1;
        }
        false
    }
}

impl Model {
    /// Whether some field addresses exactly one record.
    pub fn supports_unique_selector(&self) -> (r: bool)
        ensures
            r == has_unique_key(*self),
    {
        let mut i: usize = 0;
        while i < self.fields.len()
            invariant
                i <= self.fields@.len(),
                forall|j: int| 0 <= j < i ==> !self.fields@[j].is_unique,
            decreases self.fields@.len() - i,
        {
            if self.fields[i].is_unique {
                return true;
            }
            i = i + 1;
        }
        false
    }

    /// Whether a client can write some field.
    pub fn has_settable_fields(&self) -> (r: bool)
        ensures
            r == has_settable_field(*self),
    {
        let mut i: usize = 0;
        while i < self.fields.len()
            invariant
                i <= self.fields@.len(),
                forall|j: int| 0 <= j < i ==> self.fields@[j].is_read_only,
            decreases self.fields@.len() - i,
        {
            if !self.fields[i].is_read_only {
                return true;
            }
            i = i + 1;
        }
        false
    }
}

} // verus!
