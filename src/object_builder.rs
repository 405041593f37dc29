//! Builds the output object types of models and the batch payload, and the
//! arguments of many-record queries.
use vstd::prelude::*;
use crate::data_model::{InternalDataModel, ModelField, ScalarType};
use crate::filter_builder::FilterObjectTypeBuilder;
use crate::schema::{
    argument, argument_views, distinct_objects, field, field_views, has_object, input_opt,
    object_lookup_post, opt_in, opt_out, output_opt, output_ref, push_argument, push_field,
    input_lookup_post, Argument, ArgumentView, Field, FieldView, InputIdentity, InputType,
    ObjectIdentity, ObjectType, ObjectTypeView, OutputType,
};

verus! {

/// The output field of a model field: optional unless the field is required.
pub open spec fn record_field(f: ModelField) -> FieldView {
    let scalar = OutputType::Scalar(f.scalar);
    FieldView {
        name: f.name@,
        arguments: seq![],
        field_type: if f.is_required {
            scalar
        } else {
            opt_out(scalar)
        },
    }
}

pub open spec fn record_fields(fs: Seq<ModelField>) -> Seq<FieldView>
    decreases fs.len(),
{
    if fs.len() == 0 {
        seq![]
    } else {
        record_fields(fs.drop_last()) + seq![record_field(fs.last())]
    }
}

/// The object type with identity `id`: a model's record type, or the batch
/// payload with its `count`.
pub open spec fn model_object_type(dm: InternalDataModel, id: ObjectIdentity) -> ObjectTypeView {
    match id {
        ObjectIdentity::Model(mi) => ObjectTypeView {
            identity: id,
            name: dm.models@[mi as int].name@,
            fields: record_fields(dm.models@[mi as int].fields@),
        },
        _ => ObjectTypeView {
            identity: id,
            name: "BatchPayload"@,
            fields: seq![
                FieldView {
                    name: "count"@,
                    arguments: seq![],
                    field_type: OutputType::Scalar(ScalarType::Int),
                },
            ],
        },
    }
}

/// The arguments of a many-record query: a filter and pagination.
pub open spec fn many_records_args(mi: usize) -> Seq<ArgumentView> {
    let int_arg = opt_in(InputType::Scalar(ScalarType::Int));
    seq![
        ArgumentView { name: "where"@, arg_type: opt_in(InputType::Object(InputIdentity::Where(mi))) },
        ArgumentView { name: "skip"@, arg_type: int_arg },
        ArgumentView { name: "first"@, arg_type: int_arg },
        ArgumentView { name: "last"@, arg_type: int_arg },
    ]
}

/// Record types and the batch payload refer to no other type.
pub proof fn lemma_object_fields_scalar(dm: InternalDataModel, id: ObjectIdentity)
    requires
        id is Model ==> (id->Model_0 as int) < dm.models@.len(),
    ensures
        forall|k: int| 0 <= k < model_object_type(dm, id).fields.len() ==> {
            &&& output_ref((#[trigger] model_object_type(dm, id).fields[k]).field_type) is None
            &&& model_object_type(dm, id).fields[k].arguments.len() == 0
        },
{
    reveal_with_fuel(output_ref, 2);
    if id is Model {
        lemma_record_fields(dm.models@[id->Model_0 as int].fields@);
    }
}

proof fn lemma_record_fields(fs: Seq<ModelField>)
    ensures
        forall|k: int| 0 <= k < record_fields(fs).len() ==> {
            &&& output_ref((#[trigger] record_fields(fs)[k]).field_type) is None
            &&& record_fields(fs)[k].arguments.len() == 0
        },
    decreases fs.len(),
{
    reveal_with_fuel(output_ref, 2);
    if fs.len() > 0 {
        lemma_record_fields(fs.drop_last());
        let a = record_fields(fs.drop_last());
        assert forall|k: int| 0 <= k < record_fields(fs).len() implies {
            &&& output_ref((#[trigger] record_fields(fs)[k]).field_type) is None
            &&& record_fields(fs)[k].arguments.len() == 0
        } by {
            if k < a.len() {
                assert(record_fields(fs)[k] == a[k]);
            }
        }
    }
}

/// What a request for the record type of the model at `mi` does: it hands
/// back the model's handle and leaves a well-formed cache that holds the type.
pub open spec fn map_model_post(
    dm: InternalDataModel,
    mi: usize,
    before: ObjectTypeBuilder,
    after: ObjectTypeBuilder,
    r: ObjectIdentity,
) -> bool {
    &&& r == ObjectIdentity::Model(mi)
    &&& after.wf(dm)
    &&& object_lookup_post(before.cache_spec(), after.cache_spec(), r)
}

/// Requesting the record type of the same model twice from one builder
/// gives the same handle, the second request builds nothing, and the cache
/// holds the type exactly once.
pub proof fn lemma_object_type_cached(
    dm: InternalDataModel,
    mi: usize,
    b0: ObjectTypeBuilder,
    b1: ObjectTypeBuilder,
    b2: ObjectTypeBuilder,
    r1: ObjectIdentity,
    r2: ObjectIdentity,
)
    requires
        b0.wf(dm),
        map_model_post(dm, mi, b0, b1, r1),
        map_model_post(dm, mi, b1, b2, r2),
    ensures
        r1 == r2,
        b2.cache_spec() == b1.cache_spec(),
        has_object(b2.cache_spec(), r2),
        forall|i: int, j: int|
            0 <= i < b2.cache_spec().len() && 0 <= j < b2.cache_spec().len()
                && b2.cache_spec()[i].identity == r2 && b2.cache_spec()[j].identity == r2 ==> i == j,
{
}

/// Builds and caches output object types.
pub struct ObjectTypeBuilder {
    cache: Vec<ObjectType>,
}

impl ObjectTypeBuilder {
    pub closed spec fn cache_spec(&self) -> Seq<ObjectType> {
        self.cache@
    }

    /// Every cached type is a model's record type or the batch payload,
    /// built as `model_object_type` says, and none twice.
    pub open spec fn wf(&self, dm: InternalDataModel) -> bool {
        let c = self.cache_spec();
        &&& distinct_objects(c)
        &&& forall|i: int|
            0 <= i < c.len() ==> {
                &&& ((#[trigger] c[i]).identity is Model || c[i].identity is BatchPayload)
                &&& c[i].identity is Model ==> (c[i].identity->Model_0 as int) < dm.models@.len()
                &&& c[i]@ == model_object_type(dm, c[i].identity)
            }
    }

    pub fn new() -> (r: Self)
        ensures
            r.cache_spec().len() == 0,
    {
        ObjectTypeBuilder { cache: Vec::new() }
    }

    fn find(&self, id: ObjectIdentity) -> (r: bool)
        ensures
            r == has_object(self.cache@, id),
    {
        let mut i: usize = 0;
        while i < self.cache.len()
            invariant
                i <= self.cache@.len(),
                forall|j: int| 0 <= j < i ==> (#[trigger] self.cache@[j]).identity != id,
            decreases self.cache@.len() - i,
        {
            if self.cache[i].identity == id {
                return true;
            }
            i = i + 1;
        }
        false
    }

    fn store(&mut self, dm: &InternalDataModel, t: ObjectType)
        requires
            old(self).wf(*dm),
            !has_object(old(self).cache_spec(), t.identity),
            t.identity is Model || t.identity is BatchPayload,
            t.identity is Model ==> (t.identity->Model_0 as int) < dm.models@.len(),
            t@ == model_object_type(*dm, t.identity),
        ensures
            final(self).wf(*dm),
            object_lookup_post(old(self).cache_spec(), final(self).cache_spec(), t.identity),
    {
        let ghost before = self.cache@;
        let ghost id = t.identity;
        self.cache.push(t);
        assert(self.cache@.drop_last() =~= before);
        assert(has_object(self.cache@, id)) by {
            assert(self.cache@[before.len() as int].identity == id);
        }
    }

    /// The record type of the model at `mi`, built on first request and
    /// cached: a second request finds it and builds nothing.
    pub fn map_model_object_type(&mut self, dm: &InternalDataModel, mi: usize) -> (r: ObjectIdentity)
        requires
            old(self).wf(*dm),
            mi < dm.models@.len(),
        ensures
            map_model_post(*dm, mi, *old(self), *final(self), r),
    {
        let id = ObjectIdentity::Model(mi);
        if self.find(id) {
            return id;
        }
        let m = &dm.models[mi];
        let mut fields: Vec<Field> = Vec::new();
        let mut i: usize = 0;
        while i < m.fields.len()
            invariant
                i <= m.fields@.len(),
                field_views(fields@) == record_fields(m.fields@.take(i as int)),
            decreases m.fields@.len() - i,
        {
            let f = &m.fields[i];
            let scalar = OutputType::Scalar(f.scalar);
            let t = if f.is_required { scalar } else { output_opt(scalar) };
            let out = field(f.name.clone(), Vec::new(), t);
            assert(argument_views(Seq::<Argument>::empty()) =~= seq![]);
            push_field(&mut fields, out);
            assert(m.fields@.take(i + 1).drop_last() =~= m.fields@.take(i as int));
            i = i + 1;
        }
        assert(m.fields@.take(m.fields@.len() as int) =~= m.fields@);
        let t = ObjectType { identity: id, name: m.name.clone(), fields };
        self.store(dm, t);
        id
    }

    /// The shared payload of many-record mutations, built once.
    pub fn batch_payload_object_type(&mut self, dm: &InternalDataModel) -> (r: ObjectIdentity)
        requires
            old(self).wf(*dm),
        ensures
            r == ObjectIdentity::BatchPayload,
            final(self).wf(*dm),
            object_lookup_post(old(self).cache_spec(), final(self).cache_spec(), r),
    {
        let id = ObjectIdentity::BatchPayload;
        if self.find(id) {
            return id;
        }
        let mut fields: Vec<Field> = Vec::new();
        let count = field(String::from_str("count"), Vec::new(), OutputType::Scalar(ScalarType::Int));
        assert(argument_views(Seq::<Argument>::empty()) =~= seq![]);
        assert(field_views(Seq::<Field>::empty()) =~= seq![]);
        push_field(&mut fields, count);
        let t = ObjectType { identity: id, name: String::from_str("BatchPayload"), fields };
        assert(t@.fields =~= model_object_type(*dm, id).fields);
        self.store(dm, t);
        id
    }

    /// The filter and pagination arguments of a many-record query on the
    /// model at `mi`; its filter type comes from `filters`.
    pub fn many_records_arguments(
        &self,
        dm: &InternalDataModel,
        filters: &mut FilterObjectTypeBuilder,
        mi: usize,
    ) -> (r: Vec<Argument>)
        requires
            old(filters).wf(*dm),
            mi < dm.models@.len(),
        ensures
            argument_views(r@) == many_records_args(mi),
            final(filters).wf(*dm),
            final(filters).capabilities_spec() == old(filters).capabilities_spec(),
            input_lookup_post(old(filters).cache_spec(), final(filters).cache_spec(), InputIdentity::Where(mi)),
    {
        let filter = filters.filter_object_type(dm, mi);
        let mut args: Vec<Argument> = Vec::new();
        push_argument(&mut args, argument("where", input_opt(InputType::Object(filter))));
        push_argument(&mut args, argument("skip", input_opt(InputType::Scalar(ScalarType::Int))));
        push_argument(&mut args, argument("first", input_opt(InputType::Scalar(ScalarType::Int))));
        push_argument(&mut args, argument("last", input_opt(InputType::Scalar(ScalarType::Int))));
        assert(argument_views(args@) =~= many_records_args(mi));
        args
    }

    /// Hands over every type built, in the order built.
    pub fn into_types(self) -> (r: Vec<ObjectType>)
        ensures
            r@ == self.cache_spec(),
    {
        self.cache
    }
}

} // verus!
