//! Builds the create, update and unique-selector input types of models.
use vstd::prelude::*;
use crate::data_model::{has_settable_field, has_unique_key, InternalDataModel, ModelField};
use crate::schema::{
    distinct_inputs, has_input, input_field, input_field_views, input_lookup_post, input_opt,
    input_ref, opt_in, push_input_field, InputField, InputFieldView, InputIdentity,
    InputObjectType, InputObjectTypeView, InputType,
};

verus! {

/// What a model field contributes to the input type `id`, if anything:
/// writable fields to create (required stays required) and update (all
/// optional) inputs, unique fields to the unique selector.
pub open spec fn input_field_of(f: ModelField, id: InputIdentity) -> Option<InputFieldView> {
    let scalar = InputType::Scalar(f.scalar);
    match id {
        InputIdentity::Create(_) => if f.is_read_only {
            None
        } else {
            Some(
                InputFieldView {
                    name: f.name@,
                    field_type: if f.is_required {
                        scalar
                    } else {
                        opt_in(scalar)
                    },
                },
            )
        },
        InputIdentity::Update(_) => if f.is_read_only {
            None
        } else {
            Some(InputFieldView { name: f.name@, field_type: opt_in(scalar) })
        },
        InputIdentity::WhereUnique(_) => if f.is_unique {
            Some(InputFieldView { name: f.name@, field_type: opt_in(scalar) })
        } else {
            None
        },
        InputIdentity::Where(_) => None,
    }
}

pub open spec fn model_input_fields(fs: Seq<ModelField>, id: InputIdentity) -> Seq<InputFieldView>
    decreases fs.len(),
{
    if fs.len() == 0 {
        seq![]
    } else {
        model_input_fields(fs.drop_last(), id) + match input_field_of(fs.last(), id) {
            Some(v) => seq![v],
            None => seq![],
        }
    }
}

pub open spec fn input_suffix(id: InputIdentity) -> Seq<char> {
    match id {
        InputIdentity::Create(_) => "CreateInput"@,
        InputIdentity::Update(_) => "UpdateInput"@,
        InputIdentity::WhereUnique(_) => "WhereUniqueInput"@,
        InputIdentity::Where(_) => "WhereInput"@,
    }
}

/// The model position an input identity is for.
pub open spec fn input_model(id: InputIdentity) -> usize {
    match id {
        InputIdentity::Create(mi) => mi,
        InputIdentity::Update(mi) => mi,
        InputIdentity::WhereUnique(mi) => mi,
        InputIdentity::Where(mi) => mi,
    }
}

/// The input type with identity `id`.
pub open spec fn model_input_type(dm: InternalDataModel, id: InputIdentity) -> InputObjectTypeView {
    let m = dm.models@[input_model(id) as int];
    InputObjectTypeView {
        identity: id,
        name: m.name@ + input_suffix(id),
        fields: model_input_fields(m.fields@, id),
    }
}

/// Create, update and unique-selector inputs hold scalars only.
pub proof fn lemma_input_fields_scalar(fs: Seq<ModelField>, id: InputIdentity)
    ensures
        forall|k: int| 0 <= k < model_input_fields(fs, id).len() ==> input_ref(
            #[trigger] model_input_fields(fs, id)[k].field_type,
        ) is None,
    decreases fs.len(),
{
    reveal_with_fuel(input_ref, 2);
    if fs.len() > 0 {
        lemma_input_fields_scalar(fs.drop_last(), id);
        let a = model_input_fields(fs.drop_last(), id);
        assert forall|k: int| 0 <= k < model_input_fields(fs, id).len() implies input_ref(
            #[trigger] model_input_fields(fs, id)[k].field_type,
        ) is None by {
            if k < a.len() {
                assert(model_input_fields(fs, id)[k] == a[k]);
            }
        }
    }
}

/// Builds and caches the create, update and unique-selector input types.
pub struct InputTypeBuilder {
    cache: Vec<InputObjectType>,
}

impl InputTypeBuilder {
    pub closed spec fn cache_spec(&self) -> Seq<InputObjectType> {
        self.cache@
    }

    /// Every cached type is a create, update or unique-selector input of a
    /// model of `dm`, built as `model_input_type` says, and none twice.
    pub open spec fn wf(&self, dm: InternalDataModel) -> bool {
        let c = self.cache_spec();
        &&& distinct_inputs(c)
        &&& forall|i: int|
            0 <= i < c.len() ==> {
                &&& (#[trigger] c[i]).identity !is Where
                &&& (input_model(c[i].identity) as int) < dm.models@.len()
                &&& c[i]@ == model_input_type(dm, c[i].identity)
            }
    }

    pub fn new() -> (r: Self)
        ensures
            r.cache_spec().len() == 0,
    {
        InputTypeBuilder { cache: Vec::new() }
    }

    fn find(&self, id: InputIdentity) -> (r: bool)
        ensures
            r == has_input(self.cache@, id),
    {
        let mut i: usize = 0;
        while i < self.cache.len()
            invariant
                i <= self.cache@.len(),
                forall|j: int| 0 <= j < i ==> (#[trigger] self.cache@[j]).identity != id,
            decreases self.cache@.len() - i,
        {
            if self.cache[i].identity == id {
                return true;
            }
            i = i + 1;
        }
        false
    }

    fn input_fields(fs: &Vec<ModelField>, id: InputIdentity) -> (r: Vec<InputField>)
        ensures
            input_field_views(r@) == model_input_fields(fs@, id),
    {
        let mut out: Vec<InputField> = Vec::new();
        let mut i: usize = 0;
        while i < fs.len()
            invariant
                i <= fs@.len(),
                input_field_views(out@) == model_input_fields(fs@.take(i as int), id),
            decreases fs@.len() - i,
        {
            let ghost before = input_field_views(out@);
            let f = &fs[i];
            let scalar = InputType::Scalar(f.scalar);
            match id {
                InputIdentity::Create(_) => if !f.is_read_only {
                    let t = if f.is_required { scalar } else { input_opt(scalar) };
                    push_input_field(&mut out, input_field(f.name.clone(), t));
                },
                InputIdentity::Update(_) => if !f.is_read_only {
                    push_input_field(&mut out, input_field(f.name.clone(), input_opt(scalar)));
                },
                InputIdentity::WhereUnique(_) => if f.is_unique {
                    push_input_field(&mut out, input_field(f.name.clone(), input_opt(scalar)));
                },
                InputIdentity::Where(_) => {},
            }
            assert(fs@.take(i + 1).drop_last() =~= fs@.take(i as int));
            assert(input_field_views(out@) =~= model_input_fields(fs@.take(i + 1), id));
            i = i + 1;
        }
        assert(fs@.take(fs@.len() as int) =~= fs@);
        out
    }

    fn get_or_build(&mut self, dm: &InternalDataModel, id: InputIdentity, mi: usize)
        requires
            old(self).wf(*dm),
            mi < dm.models@.len(),
            id !is Where,
            input_model(id) == mi,
        ensures
            final(self).wf(*dm),
            input_lookup_post(old(self).cache_spec(), final(self).cache_spec(), id),
    {
        if self.find(id) {
            return ;
        }
        let m = &dm.models[mi];
        let fields = Self::input_fields(&m.fields, id);
        let suffix = match id {
            InputIdentity::Create(_) => "CreateInput",
            InputIdentity::Update(_) => "UpdateInput",
            _ => "WhereUniqueInput",
        };
        let t = InputObjectType { identity: id, name: m.name.clone().concat(suffix), fields };
        let ghost before = self.cache@;
        self.cache.push(t);
        assert(self.cache@.drop_last() =~= before);
        assert(has_input(self.cache@, id)) by {
            assert(self.cache@[before.len() as int].identity == id);
        }
    }

    /// The create input of the model at `mi`; none when no field is writable.
    pub fn create_input_type(&mut self, dm: &InternalDataModel, mi: usize) -> (r: Option<InputIdentity>)
        requires
            old(self).wf(*dm),
            mi < dm.models@.len(),
        ensures
            final(self).wf(*dm),
            has_settable_field(dm.models@[mi as int]) ==> r == Some(InputIdentity::Create(mi))
                && input_lookup_post(old(self).cache_spec(), final(self).cache_spec(), InputIdentity::Create(mi)),
            !has_settable_field(dm.models@[mi as int]) ==> r is None && final(self).cache_spec()
                == old(self).cache_spec(),
    {
        if dm.models[mi].has_settable_fields() {
            self.get_or_build(dm, InputIdentity::Create(mi), mi);
            Some(InputIdentity::Create(mi))
        } else {
            None
        }
    }

    /// The update input of the model at `mi` (empty when no field is writable).
    pub fn update_input_type(&mut self, dm: &InternalDataModel, mi: usize) -> (r: InputIdentity)
        requires
            old(self).wf(*dm),
            mi < dm.models@.len(),
        ensures
            final(self).wf(*dm),
            r == InputIdentity::Update(mi),
            input_lookup_post(old(self).cache_spec(), final(self).cache_spec(), r),
    {
        self.get_or_build(dm, InputIdentity::Update(mi), mi);
        InputIdentity::Update(mi)
    }

    /// The unique selector of the model at `mi`; none when no field is unique.
    pub fn where_unique_input_type(&mut self, dm: &InternalDataModel, mi: usize) -> (r: Option<InputIdentity>)
        requires
            old(self).wf(*dm),
            mi < dm.models@.len(),
        ensures
            final(self).wf(*dm),
            has_unique_key(dm.models@[mi as int]) ==> r == Some(InputIdentity::WhereUnique(mi))
                && input_lookup_post(old(self).cache_spec(), final(self).cache_spec(), InputIdentity::WhereUnique(mi)),
            !has_unique_key(dm.models@[mi as int]) ==> r is None && final(self).cache_spec()
                == old(self).cache_spec(),
    {
        if dm.models[mi].supports_unique_selector() {
            self.get_or_build(dm, InputIdentity::WhereUnique(mi), mi);
            Some(InputIdentity::WhereUnique(mi))
        } else {
            None
        }
    }

    /// Hands over every type built, in the order built.
    pub fn into_types(self) -> (r: Vec<InputObjectType>)
        ensures
            r@ == self.cache_spec(),
    {
        self.cache
    }
}

} // verus!
