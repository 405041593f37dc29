//! Builds the "where" filter input types of models, as far as the store's
//! capabilities allow.
use vstd::prelude::*;
use crate::data_model::{Capability, InternalDataModel, ModelField, ScalarType, SupportedCapabilities};
use crate::schema::{
    has_input, input_field, input_field_views, input_list, input_lookup_post, input_opt,
    list_in, opt_in, push_input_field, distinct_inputs, InputField, InputFieldView, InputIdentity,
    InputObjectType, InputObjectTypeView, InputType,
};

verus! {

/// One filter condition on a field: the field's name with a suffix.
pub open spec fn condition(f: ModelField, suffix: Seq<char>) -> InputFieldView {
    InputFieldView { name: f.name@ + suffix, field_type: opt_in(InputType::Scalar(f.scalar)) }
}

pub open spec fn compares(t: ScalarType) -> bool {
    t == ScalarType::Int || t == ScalarType::DateTime
}

/// The conditions on one field: equality and its negation always, then the
/// comparisons and text searches that the store supports for its type.
pub open spec fn field_conditions(f: ModelField, caps: SupportedCapabilities) -> Seq<InputFieldView> {
    seq![condition(f, ""@), condition(f, "_not"@)] + (if caps.has_spec(
        Capability::ComparisonFilters,
    ) && compares(f.scalar) {
        seq![condition(f, "_lt"@), condition(f, "_gt"@)]
    } else {
        seq![]
    }) + (if caps.has_spec(Capability::TextFilters) && f.scalar == ScalarType::Text {
        seq![condition(f, "_contains"@), condition(f, "_starts_with"@)]
    } else {
        seq![]
    })
}

/// The conditions on every field, in field order.
pub open spec fn filter_conditions(fs: Seq<ModelField>, caps: SupportedCapabilities) -> Seq<InputFieldView>
    decreases fs.len(),
{
    if fs.len() == 0 {
        seq![]
    } else {
        filter_conditions(fs.drop_last(), caps) + field_conditions(fs.last(), caps)
    }
}

/// `AND`, `OR` and `NOT`: lists of nested filters of the same model.
pub open spec fn logical_conditions(mi: usize) -> Seq<InputFieldView> {
    let nested = opt_in(list_in(InputType::Object(InputIdentity::Where(mi))));
    seq![
        InputFieldView { name: "AND"@, field_type: nested },
        InputFieldView { name: "OR"@, field_type: nested },
        InputFieldView { name: "NOT"@, field_type: nested },
    ]
}

/// The filter type of the model at position `mi`.
pub open spec fn where_input_type(dm: InternalDataModel, mi: usize, caps: SupportedCapabilities) -> InputObjectTypeView {
    let m = dm.models@[mi as int];
    InputObjectTypeView {
        identity: InputIdentity::Where(mi),
        name: m.name@ + "WhereInput"@,
        fields: filter_conditions(m.fields@, caps) + logical_conditions(mi),
    }
}

/// Filter conditions hold scalars only.
pub proof fn lemma_conditions_scalar(fs: Seq<ModelField>, caps: SupportedCapabilities)
    ensures
        forall|k: int| 0 <= k < filter_conditions(fs, caps).len() ==> crate::schema::input_ref(
            #[trigger] filter_conditions(fs, caps)[k].field_type,
        ) is None,
    decreases fs.len(),
{
    if fs.len() > 0 {
        lemma_conditions_scalar(fs.drop_last(), caps);
        let a = filter_conditions(fs.drop_last(), caps);
        let b = field_conditions(fs.last(), caps);
        assert forall|k: int| 0 <= k < filter_conditions(fs, caps).len() implies crate::schema::input_ref(
            #[trigger] filter_conditions(fs, caps)[k].field_type,
        ) is None by {
            if k >= a.len() {
                assert(filter_conditions(fs, caps)[k] == b[k - a.len()]);
                assert(b[k - a.len()].field_type == opt_in(InputType::Scalar(fs.last().scalar)));
                reveal_with_fuel(crate::schema::input_ref, 2);
            } else {
                assert(filter_conditions(fs, caps)[k] == a[k]);
            }
        }
    }
}

/// Builds and caches filter input types, one per model.
pub struct FilterObjectTypeBuilder<'a> {
    capabilities: &'a SupportedCapabilities,
    cache: Vec<InputObjectType>,
}

impl<'a> FilterObjectTypeBuilder<'a> {
    pub closed spec fn capabilities_spec(&self) -> SupportedCapabilities {
        *self.capabilities
    }

    pub closed spec fn cache_spec(&self) -> Seq<InputObjectType> {
        self.cache@
    }

    /// Every cached type is the filter of a model of `dm`, built as
    /// `where_input_type` says, and no model has two.
    pub open spec fn wf(&self, dm: InternalDataModel) -> bool {
        let c = self.cache_spec();
        &&& distinct_inputs(c)
        &&& forall|i: int|
            0 <= i < c.len() ==> {
                &&& (#[trigger] c[i]).identity is Where
                &&& (c[i].identity->Where_0 as int) < dm.models@.len()
                &&& c[i]@ == where_input_type(dm, c[i].identity->Where_0, self.capabilities_spec())
            }
    }

    pub fn new(capabilities: &'a SupportedCapabilities) -> (r: Self)
        ensures
            r.capabilities_spec() == *capabilities,
            r.cache_spec().len() == 0,
    {
        FilterObjectTypeBuilder { capabilities, cache: Vec::new() }
    }

    fn find(&self, id: InputIdentity) -> (r: Option<usize>)
        ensures
            r is Some <==> has_input(self.cache@, id),
            r matches Some(i) ==> i < self.cache@.len() && self.cache@[i as int].identity == id,
    {
        let mut i: usize = 0;
        while i < self.cache.len()
            invariant
                i <= self.cache@.len(),
                forall|j: int| 0 <= j < i ==> (#[trigger] self.cache@[j]).identity != id,
            decreases self.cache@.len() - i,
        {
            if self.cache[i].identity == id {
                return Some(i);
            }
            i = i + 1;
        }
        None
    }

    fn push_condition(&self, out: &mut Vec<InputField>, f: &ModelField, suffix: &str)
        ensures
            input_field_views(final(out)@) == input_field_views(old(out)@).push(condition(*f, suffix@)),
    {
        let name = f.name.clone().concat(suffix);
        push_input_field(out, input_field(name, input_opt(InputType::Scalar(f.scalar))));
    }

    fn conditions(&self, fs: &Vec<ModelField>) -> (r: Vec<InputField>)
        ensures
            input_field_views(r@) == filter_conditions(fs@, *self.capabilities),
    {
        let comparisons = self.capabilities.has(Capability::ComparisonFilters);
        let texts = self.capabilities.has(Capability::TextFilters);
        let mut out: Vec<InputField> = Vec::new();
        let mut i: usize = 0;
        while i < fs.len()
            invariant
                i <= fs@.len(),
                comparisons == self.capabilities.has_spec(Capability::ComparisonFilters),
                texts == self.capabilities.has_spec(Capability::TextFilters),
                input_field_views(out@) == filter_conditions(fs@.take(i as int), *self.capabilities),
            decreases fs@.len() - i,
        {
            let ghost before = input_field_views(out@);
            let f = &fs[i];
            self.push_condition(&mut out, f, "");
            self.push_condition(&mut out, f, "_not");
            if comparisons && (f.scalar == ScalarType::Int || f.scalar == ScalarType::DateTime) {
                self.push_condition(&mut out, f, "_lt");
                self.push_condition(&mut out, f, "_gt");
            }
            if texts && f.scalar == ScalarType::Text {
                self.push_condition(&mut out, f, "_contains");
                self.push_condition(&mut out, f, "_starts_with");
            }
            assert(fs@.take(i + 1).drop_last() =~= fs@.take(i as int));
            assert(input_field_views(out@) =~= before + field_conditions(*f, *self.capabilities));
            i = i + 1;
        }
        assert(fs@.take(fs@.len() as int) =~= fs@);
        out
    }

    /// The filter type of the model at `mi`, built on first request and
    /// cached: a second request finds it and builds nothing.
    pub fn filter_object_type(&mut self, dm: &InternalDataModel, mi: usize) -> (r: InputIdentity)
        requires
            old(self).wf(*dm),
            mi < dm.models@.len(),
        ensures
            r == InputIdentity::Where(mi),
            final(self).wf(*dm),
            final(self).capabilities_spec() == old(self).capabilities_spec(),
            input_lookup_post(old(self).cache_spec(), final(self).cache_spec(), r),
    {
        let id = InputIdentity::Where(mi);
        if self.find(id).is_some() {
            return id;
        }
        let m = &dm.models[mi];
        let mut fields = self.conditions(&m.fields);
        let nested = input_opt(input_list(InputType::Object(id)));
        push_input_field(&mut fields, input_field(String::from_str("AND"), nested));
        let nested = input_opt(input_list(InputType::Object(id)));
        push_input_field(&mut fields, input_field(String::from_str("OR"), nested));
        let nested = input_opt(input_list(InputType::Object(id)));
        push_input_field(&mut fields, input_field(String::from_str("NOT"), nested));
        let t = InputObjectType { identity: id, name: m.name.clone().concat("WhereInput"), fields };
        assert(t@.fields =~= filter_conditions(m.fields@, *self.capabilities) + logical_conditions(mi));
        let ghost before = self.cache@;
        self.cache.push(t);
        assert(self.cache@.drop_last() =~= before);
        assert(has_input(self.cache@, id)) by {
            assert(self.cache@[before.len() as int].identity == id);
        }
        id
    }

    /// Hands over every type built, in the order built.
    pub fn into_types(self) -> (r: Vec<InputObjectType>)
        ensures
            r@ == self.cache_spec(),
    {
        self.cache
    }
}

} // verus!
