//! The root of schema building: wires the type builders together, builds
//! the root query and mutation types model by model, and collects every
//! type built into the finished schema.
use vstd::prelude::*;
use crate::argument_builder::{
    args_within, built_inputs, create_arguments, create_data_arg, delete_args, delete_arguments,
    delete_many_args, delete_many_arguments, update_args, update_arguments, update_many_args,
    update_many_arguments, upsert_args, upsert_arguments, where_unique_arg, where_unique_argument,
};
use crate::data_model::{has_settable_field, has_unique_key, InternalDataModel, Model, SupportedCapabilities};
use crate::filter_builder::{
    filter_conditions, lemma_conditions_scalar, logical_conditions, where_input_type,
    FilterObjectTypeBuilder,
};
use crate::input_builder::{input_model, lemma_input_fields_scalar, model_input_type, InputTypeBuilder};
use crate::naming::{camel_case, lower_first, plural_field_name, plural_of, pluralize};
use crate::object_builder::{
    lemma_object_fields_scalar, many_records_args, model_object_type, ObjectTypeBuilder,
};
use crate::schema::{
    argument_views, extends, field, field_views, field_within, fields_within, input_ids,
    input_ref, input_ref_within, lemma_inputs_grow, lemma_object_lookup_extends,
    lemma_objects_grow, list_out, object_ids, opt_out, output_list, output_opt, output_ref,
    push_field, complete_lists, distinct_inputs, distinct_objects, has_input, has_object,
    input_fields_within, lemma_fields_within_grow, Argument, Field, FieldView, InputIdentity, ObjectIdentity, ObjectType,
    ObjectTypeView, OutputType, QuerySchema, InputObjectType,
};

verus! {

/// Build mode for schema generation (work in progress: both build the same
/// schema).
#[derive(Debug, Clone, Copy)]
pub enum BuildMode {
    /// Compatible with the legacy schema; still only a subset of it.
    Legacy,
    Modern,
}

pub open spec fn model_object(mi: usize) -> OutputType {
    OutputType::Object(ObjectIdentity::Model(mi))
}

/// The collection query of a model, e.g. `users`.
pub open spec fn all_items_field_view(dm: InternalDataModel, mi: usize) -> FieldView {
    FieldView {
        name: plural_field_name(dm.models@[mi as int].name@),
        arguments: many_records_args(mi),
        field_type: list_out(opt_out(model_object(mi))),
    }
}

/// The single-record query of a model, e.g. `user`.
pub open spec fn single_item_field_view(dm: InternalDataModel, mi: usize) -> FieldView {
    FieldView {
        name: lower_first(dm.models@[mi as int].name@),
        arguments: seq![where_unique_arg(mi)],
        field_type: opt_out(model_object(mi)),
    }
}

pub open spec fn create_field_view(dm: InternalDataModel, mi: usize) -> FieldView {
    FieldView {
        name: "create"@ + dm.models@[mi as int].name@,
        arguments: if has_settable_field(dm.models@[mi as int]) {
            seq![create_data_arg(mi)]
        } else {
            seq![]
        },
        field_type: model_object(mi),
    }
}

pub open spec fn delete_field_view(dm: InternalDataModel, mi: usize) -> FieldView {
    FieldView {
        name: "delete"@ + dm.models@[mi as int].name@,
        arguments: delete_args(mi),
        field_type: opt_out(model_object(mi)),
    }
}

pub open spec fn update_field_view(dm: InternalDataModel, mi: usize) -> FieldView {
    FieldView {
        name: "update"@ + dm.models@[mi as int].name@,
        arguments: update_args(mi),
        field_type: opt_out(model_object(mi)),
    }
}

pub open spec fn upsert_field_view(dm: InternalDataModel, mi: usize) -> FieldView {
    FieldView {
        name: "upsert"@ + dm.models@[mi as int].name@,
        arguments: upsert_args(dm, mi),
        field_type: model_object(mi),
    }
}

pub open spec fn update_many_field_view(dm: InternalDataModel, mi: usize) -> FieldView {
    FieldView {
        name: "updateMany"@ + plural_of(dm.models@[mi as int].name@),
        arguments: update_many_args(mi),
        field_type: OutputType::Object(ObjectIdentity::BatchPayload),
    }
}

pub open spec fn delete_many_field_view(dm: InternalDataModel, mi: usize) -> FieldView {
    FieldView {
        name: "deleteMany"@ + plural_of(dm.models@[mi as int].name@),
        arguments: delete_many_args(mi),
        field_type: OutputType::Object(ObjectIdentity::BatchPayload),
    }
}

/// The query fields of one model: the collection query, and the
/// single-record query where the model has a unique key.
pub open spec fn model_query_fields(dm: InternalDataModel, mi: usize) -> Seq<FieldView> {
    seq![all_items_field_view(dm, mi)] + if has_unique_key(dm.models@[mi as int]) {
        seq![single_item_field_view(dm, mi)]
    } else {
        seq![]
    }
}

/// The mutation fields of one model: create; delete, update and upsert where
/// the model has a unique key; update-many and delete-many.
pub open spec fn model_mutation_fields(dm: InternalDataModel, mi: usize) -> Seq<FieldView> {
    seq![create_field_view(dm, mi)] + (if has_unique_key(dm.models@[mi as int]) {
        seq![delete_field_view(dm, mi), update_field_view(dm, mi), upsert_field_view(dm, mi)]
    } else {
        seq![]
    }) + seq![update_many_field_view(dm, mi), delete_many_field_view(dm, mi)]
}

/// The positions, in order, of the first `n` models that are not embedded.
pub open spec fn non_embedded(models: Seq<Model>, n: int) -> Seq<usize>
    decreases n,
{
    if n <= 0 {
        seq![]
    } else {
        non_embedded(models, n - 1) + if models[n - 1].is_embedded {
            seq![]
        } else {
            seq![(n - 1) as usize]
        }
    }
}

/// The positions of the models that the root types serve.
pub open spec fn served_models(dm: InternalDataModel) -> Seq<usize> {
    non_embedded(dm.models@, dm.models@.len() as int)
}

pub open spec fn query_fields(dm: InternalDataModel, ids: Seq<usize>) -> Seq<FieldView>
    decreases ids.len(),
{
    if ids.len() == 0 {
        seq![]
    } else {
        query_fields(dm, ids.drop_last()) + model_query_fields(dm, ids.last())
    }
}

pub open spec fn mutation_fields(dm: InternalDataModel, ids: Seq<usize>) -> Seq<FieldView>
    decreases ids.len(),
{
    if ids.len() == 0 {
        seq![]
    } else {
        mutation_fields(dm, ids.drop_last()) + model_mutation_fields(dm, ids.last())
    }
}

/// The root query type of a data model.
pub open spec fn query_type_view(dm: InternalDataModel) -> ObjectTypeView {
    ObjectTypeView {
        identity: ObjectIdentity::Query,
        name: "Query"@,
        fields: query_fields(dm, served_models(dm)),
    }
}

/// The root mutation type of a data model.
pub open spec fn mutation_type_view(dm: InternalDataModel) -> ObjectTypeView {
    ObjectTypeView {
        identity: ObjectIdentity::Mutation,
        name: "Mutation"@,
        fields: mutation_fields(dm, served_models(dm)),
    }
}

/// The served positions are in range and name models that are not embedded.
pub proof fn lemma_non_embedded(models: Seq<Model>, n: int)
    requires
        0 <= n <= models.len(),
        n <= usize::MAX,
    ensures
        forall|k: int|
            0 <= k < non_embedded(models, n).len() ==> (#[trigger] non_embedded(models, n)[k] as int)
                < n && !models[non_embedded(models, n)[k] as int].is_embedded,
    decreases n,
{
    if n > 0 {
        lemma_non_embedded(models, n - 1);
        let a = non_embedded(models, n - 1);
        assert forall|k: int| 0 <= k < non_embedded(models, n).len() implies (
        #[trigger] non_embedded(models, n)[k] as int) < n && !models[non_embedded(
            models,
            n,
        )[k] as int].is_embedded by {
            if k < a.len() {
                assert(non_embedded(models, n)[k] == a[k]);
            } else {
                assert(non_embedded(models, n)[k] == (n - 1) as usize);
            }
        }
    }
}


/// Root for query schema building. It creates every type builder the process
/// needs and hands each step the builders it draws on. Each builder is the
/// sole owner of the types it makes; types refer to each other by identity.
pub struct QuerySchemaBuilder<'a> {
    mode: BuildMode,
    internal_data_model: &'a InternalDataModel,
    capabilities: &'a SupportedCapabilities,
    object_type_builder: ObjectTypeBuilder,
    input_type_builder: InputTypeBuilder,
    filter_object_type_builder: FilterObjectTypeBuilder<'a>,
}

impl<'a> QuerySchemaBuilder<'a> {
    pub closed spec fn data_model(&self) -> InternalDataModel {
        *self.internal_data_model
    }

    pub closed spec fn capabilities_spec(&self) -> SupportedCapabilities {
        *self.capabilities
    }

    pub closed spec fn mode_spec(&self) -> BuildMode {
        self.mode
    }

    /// Every builder is well formed over the data model, and the filter
    /// builder consults the schema's capabilities.
    pub closed spec fn wf(&self) -> bool {
        let dm = *self.internal_data_model;
        &&& self.object_type_builder.wf(dm)
        &&& self.input_type_builder.wf(dm)
        &&& self.filter_object_type_builder.wf(dm)
        &&& self.filter_object_type_builder.capabilities_spec() == *self.capabilities
    }

    spec fn outs(&self) -> Set<ObjectIdentity> {
        object_ids(self.object_type_builder.cache_spec())
    }

    spec fn ins(&self) -> Set<InputIdentity> {
        built_inputs(self.input_type_builder, self.filter_object_type_builder)
    }

    /// `after` is this builder later on: same inputs, caches only appended to.
    spec fn grows_to(&self, after: Self) -> bool {
        &&& after.wf()
        &&& after.internal_data_model == self.internal_data_model
        &&& after.capabilities == self.capabilities
        &&& after.mode == self.mode
        &&& extends(self.object_type_builder.cache_spec(), after.object_type_builder.cache_spec())
        &&& extends(self.input_type_builder.cache_spec(), after.input_type_builder.cache_spec())
        &&& extends(
            self.filter_object_type_builder.cache_spec(),
            after.filter_object_type_builder.cache_spec(),
        )
    }

    proof fn lemma_grows(&self, after: Self)
        requires
            self.grows_to(after),
        ensures
            self.outs().subset_of(after.outs()),
            self.ins().subset_of(after.ins()),
    {
        lemma_objects_grow(self.object_type_builder.cache_spec(), after.object_type_builder.cache_spec());
        lemma_inputs_grow(self.input_type_builder.cache_spec(), after.input_type_builder.cache_spec());
        lemma_inputs_grow(
            self.filter_object_type_builder.cache_spec(),
            after.filter_object_type_builder.cache_spec(),
        );
    }

    /// Wires the builders: filters first (they need only the capabilities),
    /// then inputs and objects, whose arguments draw on the filters.
    pub fn new(
        internal_data_model: &'a InternalDataModel,
        capabilities: &'a SupportedCapabilities,
        mode: BuildMode,
    ) -> (r: Self)
        ensures
            r.wf(),
            r.data_model() == *internal_data_model,
            r.capabilities_spec() == *capabilities,
            r.mode_spec() == mode,
    {
        let filter_object_type_builder = FilterObjectTypeBuilder::new(capabilities);
        let input_type_builder = InputTypeBuilder::new();
        let object_type_builder = ObjectTypeBuilder::new();
        QuerySchemaBuilder {
            mode,
            internal_data_model,
            capabilities,
            object_type_builder,
            input_type_builder,
            filter_object_type_builder,
        }
    }

    pub fn mode(&self) -> (r: BuildMode)
        ensures
            r == self.mode_spec(),
    {
        self.mode
    }

    /// The positions of the models that are not embedded, in order.
    fn non_embedded_models(&self) -> (r: Vec<usize>)
        ensures
            r@ == served_models(*self.internal_data_model),
            forall|j: int|
                0 <= j < r@.len() ==> (#[trigger] r@[j] as int) < self.internal_data_model.models@.len()
                    && !self.internal_data_model.models@[r@[j] as int].is_embedded,
    {
        let models = &self.internal_data_model.models;
        let mut r: Vec<usize> = Vec::new();
        let mut i: usize = 0;
        while i < models.len()
            invariant
                i <= models@.len(),
                r@ == non_embedded(models@, i as int),
            decreases models@.len() - i,
        {
            if !models[i].is_embedded {
                r.push(i);
            }
            assert(r@ =~= non_embedded(models@, i + 1));
            i = i + 1;
        }
        proof {
            lemma_non_embedded(models@, i as int);
        }
        r
    }

    /// The collection query of a model (e.g. "users").
    fn all_items_field(&mut self, mi: usize) -> (r: Field)
        requires
            old(self).wf(),
            mi < old(self).data_model().models@.len(),
        ensures
            old(self).grows_to(*final(self)),
            r@ == all_items_field_view(old(self).data_model(), mi),
            field_within(r@, final(self).outs(), final(self).ins()),
    {
        let ghost f0 = self.filter_object_type_builder.cache_spec();
        let ghost o0 = self.object_type_builder.cache_spec();
        let dm = self.internal_data_model;
        let args = self.object_type_builder.many_records_arguments(dm, &mut self.filter_object_type_builder, mi);
        let object = self.object_type_builder.map_model_object_type(dm, mi);
        let name = camel_case(pluralize(dm.models[mi].name.as_str()).as_str());
        let r = field(name, args, output_list(output_opt(OutputType::Object(object))));
        proof {
            lemma_object_lookup_extends(o0, self.object_type_builder.cache_spec(), object);
            crate::schema::lemma_input_lookup_extends(
                f0,
                self.filter_object_type_builder.cache_spec(),
                InputIdentity::Where(mi),
            );
            reveal_with_fuel(output_ref, 3);
            reveal_with_fuel(input_ref, 2);
            assert(self.outs().contains(object));
            assert(input_ids(self.filter_object_type_builder.cache_spec()).contains(InputIdentity::Where(mi)));
        }
        r
    }

    /// The record field of a root type: the model's arguments, and a type
    /// that refers to the model's record type, which is built here.
    fn model_field(&mut self, mi: usize, name: String, args: Vec<Argument>, optional: bool) -> (r: Field)
        requires
            old(self).wf(),
            mi < old(self).data_model().models@.len(),
            args_within(argument_views(args@), old(self).ins()),
        ensures
            old(self).grows_to(*final(self)),
            r@ == (FieldView {
                name: name@,
                arguments: argument_views(args@),
                field_type: if optional {
                    opt_out(model_object(mi))
                } else {
                    model_object(mi)
                },
            }),
            field_within(r@, final(self).outs(), final(self).ins()),
    {
        let ghost o0 = self.object_type_builder.cache_spec();
        let object = self.object_type_builder.map_model_object_type(self.internal_data_model, mi);
        let t = if optional { output_opt(OutputType::Object(object)) } else { OutputType::Object(object) };
        proof {
            lemma_object_lookup_extends(o0, self.object_type_builder.cache_spec(), object);
            reveal_with_fuel(output_ref, 2);
            assert(self.outs().contains(object));
        }
        field(name, args, t)
    }

    /// The single-record query of a model (e.g. "user"); none when the model
    /// has no unique key.
    fn single_item_field(&mut self, mi: usize) -> (r: Option<Field>)
        requires
            old(self).wf(),
            mi < old(self).data_model().models@.len(),
        ensures
            old(self).grows_to(*final(self)),
            r is Some <==> has_unique_key(old(self).data_model().models@[mi as int]),
            r matches Some(f) ==> f@ == single_item_field_view(old(self).data_model(), mi) && field_within(
                f@,
                final(self).outs(),
                final(self).ins(),
            ),
    {
        let ghost s0 = *self;
        let dm = self.internal_data_model;
        match where_unique_argument(dm, &mut self.input_type_builder, mi) {
            Some(arg) => {
                let mut args: Vec<Argument> = Vec::new();
                crate::schema::push_argument(&mut args, arg);
                proof {
                    s0.lemma_grows(*self);
                    assert(argument_views(args@) =~= seq![where_unique_arg(mi)]);
                    assert(self.ins().contains(InputIdentity::WhereUnique(mi)));
                }
                let name = camel_case(dm.models[mi].name.as_str());
                Some(self.model_field(mi, name, args, true))
            },
            None => None,
        }
    }

    /// The create mutation of a model (e.g. "createUser").
    fn create_item_field(&mut self, mi: usize) -> (r: Field)
        requires
            old(self).wf(),
            mi < old(self).data_model().models@.len(),
        ensures
            old(self).grows_to(*final(self)),
            r@ == create_field_view(old(self).data_model(), mi),
            field_within(r@, final(self).outs(), final(self).ins()),
    {
        let ghost s0 = *self;
        let dm = self.internal_data_model;
        let args = match create_arguments(dm, &mut self.input_type_builder, mi) {
            Some(args) => args,
            None => Vec::new(),
        };
        proof {
            s0.lemma_grows(*self);
            if has_settable_field(dm.models@[mi as int]) {
                crate::argument_builder::lemma_args_within_grow(
                    argument_views(args@),
                    input_ids(self.input_type_builder.cache_spec()),
                    self.ins(),
                );
            } else {
                assert(argument_views(args@) =~= seq![]);
            }
        }
        let name = String::from_str("create").concat(dm.models[mi].name.as_str());
        self.model_field(mi, name, args, false)
    }

    /// The delete mutation of a model (e.g. "deleteUser"); none when the
    /// model has no unique key.
    fn delete_item_field(&mut self, mi: usize) -> (r: Option<Field>)
        requires
            old(self).wf(),
            mi < old(self).data_model().models@.len(),
        ensures
            old(self).grows_to(*final(self)),
            r is Some <==> has_unique_key(old(self).data_model().models@[mi as int]),
            r matches Some(f) ==> f@ == delete_field_view(old(self).data_model(), mi) && field_within(
                f@,
                final(self).outs(),
                final(self).ins(),
            ),
    {
        let ghost s0 = *self;
        let dm = self.internal_data_model;
        match delete_arguments(dm, &mut self.input_type_builder, mi) {
            Some(args) => {
                proof {
                    s0.lemma_grows(*self);
                    crate::argument_builder::lemma_args_within_grow(
                        argument_views(args@),
                        input_ids(self.input_type_builder.cache_spec()),
                        self.ins(),
                    );
                }
                let name = String::from_str("delete").concat(dm.models[mi].name.as_str());
                Some(self.model_field(mi, name, args, true))
            },
            None => None,
        }
    }

    /// The update mutation of a model (e.g. "updateUser"); none when the
    /// model has no unique key.
    fn update_item_field(&mut self, mi: usize) -> (r: Option<Field>)
        requires
            old(self).wf(),
            mi < old(self).data_model().models@.len(),
        ensures
            old(self).grows_to(*final(self)),
            r is Some <==> has_unique_key(old(self).data_model().models@[mi as int]),
            r matches Some(f) ==> f@ == update_field_view(old(self).data_model(), mi) && field_within(
                f@,
                final(self).outs(),
                final(self).ins(),
            ),
    {
        let ghost s0 = *self;
        let dm = self.internal_data_model;
        match update_arguments(dm, &mut self.input_type_builder, mi) {
            Some(args) => {
                proof {
                    s0.lemma_grows(*self);
                    crate::argument_builder::lemma_args_within_grow(
                        argument_views(args@),
                        input_ids(self.input_type_builder.cache_spec()),
                        self.ins(),
                    );
                }
                let name = String::from_str("update").concat(dm.models[mi].name.as_str());
                Some(self.model_field(mi, name, args, true))
            },
            None => None,
        }
    }

    /// The upsert mutation of a model (e.g. "upsertUser"); none when the
    /// model has no unique key.
    fn upsert_item_field(&mut self, mi: usize) -> (r: Option<Field>)
        requires
            old(self).wf(),
            mi < old(self).data_model().models@.len(),
        ensures
            old(self).grows_to(*final(self)),
            r is Some <==> has_unique_key(old(self).data_model().models@[mi as int]),
            r matches Some(f) ==> f@ == upsert_field_view(old(self).data_model(), mi) && field_within(
                f@,
                final(self).outs(),
                final(self).ins(),
            ),
    {
        let ghost s0 = *self;
        let dm = self.internal_data_model;
        match upsert_arguments(dm, &mut self.input_type_builder, mi) {
            Some(args) => {
                proof {
                    s0.lemma_grows(*self);
                    crate::argument_builder::lemma_args_within_grow(
                        argument_views(args@),
                        input_ids(self.input_type_builder.cache_spec()),
                        self.ins(),
                    );
                }
                let name = String::from_str("upsert").concat(dm.models[mi].name.as_str());
                Some(self.model_field(mi, name, args, false))
            },
            None => None,
        }
    }

    /// A many-record mutation field: its arguments and the batch payload.
    fn batch_field(&mut self, name: String, args: Vec<Argument>) -> (r: Field)
        requires
            old(self).wf(),
            args_within(argument_views(args@), old(self).ins()),
        ensures
            old(self).grows_to(*final(self)),
            r@ == (FieldView {
                name: name@,
                arguments: argument_views(args@),
                field_type: OutputType::Object(ObjectIdentity::BatchPayload),
            }),
            field_within(r@, final(self).outs(), final(self).ins()),
    {
        let ghost o0 = self.object_type_builder.cache_spec();
        let payload = self.object_type_builder.batch_payload_object_type(self.internal_data_model);
        proof {
            lemma_object_lookup_extends(o0, self.object_type_builder.cache_spec(), payload);
            assert(self.outs().contains(payload));
        }
        field(name, args, OutputType::Object(payload))
    }

    /// The update-many mutation of a model (e.g. "updateManyUsers").
    fn update_many_field(&mut self, mi: usize) -> (r: Field)
        requires
            old(self).wf(),
            mi < old(self).data_model().models@.len(),
        ensures
            old(self).grows_to(*final(self)),
            r@ == update_many_field_view(old(self).data_model(), mi),
            field_within(r@, final(self).outs(), final(self).ins()),
    {
        let dm = self.internal_data_model;
        let args = update_many_arguments(
            dm,
            &mut self.input_type_builder,
            &mut self.filter_object_type_builder,
            mi,
        );
        let name = String::from_str("updateMany").concat(pluralize(dm.models[mi].name.as_str()).as_str());
        self.batch_field(name, args)
    }

    /// The delete-many mutation of a model (e.g. "deleteManyUsers").
    fn delete_many_field(&mut self, mi: usize) -> (r: Field)
        requires
            old(self).wf(),
            mi < old(self).data_model().models@.len(),
        ensures
            old(self).grows_to(*final(self)),
            r@ == delete_many_field_view(old(self).data_model(), mi),
            field_within(r@, final(self).outs(), final(self).ins()),
    {
        let ghost s0 = *self;
        let dm = self.internal_data_model;
        let args = delete_many_arguments(dm, &mut self.filter_object_type_builder, mi);
        proof {
            s0.lemma_grows(*self);
            crate::argument_builder::lemma_args_within_grow(
                argument_views(args@),
                input_ids(self.filter_object_type_builder.cache_spec()),
                self.ins(),
            );
        }
        let name = String::from_str("deleteMany").concat(pluralize(dm.models[mi].name.as_str()).as_str());
        self.batch_field(name, args)
    }

    /// Appends two fields built in turn, keeping the list within the
    /// builders' types.
    proof fn lemma_fields_step(
        &self,
        after: Self,
        fs: Seq<FieldView>,
        f: FieldView,
    )
        requires
            self.grows_to(after),
            fields_within(fs, self.outs(), self.ins()),
            field_within(f, after.outs(), after.ins()),
        ensures
            fields_within(fs.push(f), after.outs(), after.ins()),
    {
        self.lemma_grows(after);
        crate::schema::lemma_fields_within_grow(fs, self.outs(), self.ins(), after.outs(), after.ins());
        assert forall|k: int| 0 <= k < fs.push(f).len() implies field_within(
            #[trigger] fs.push(f)[k],
            after.outs(),
            after.ins(),
        ) by {
            if k < fs.len() {
                assert(fs.push(f)[k] == fs[k]);
            }
        }
    }

    /// Builds the root query type.
    fn build_query_type(&mut self) -> (r: (OutputType, ObjectType))
        requires
            old(self).wf(),
        ensures
            old(self).grows_to(*final(self)),
            r.0 == OutputType::Object(ObjectIdentity::Query),
            r.1@ == query_type_view(old(self).data_model()),
            fields_within(r.1@.fields, final(self).outs(), final(self).ins()),
    {
        let ghost s0 = *self;
        let ghost dm = *self.internal_data_model;
        let ids = self.non_embedded_models();
        let mut fields: Vec<Field> = Vec::new();
        let mut k: usize = 0;
        while k < ids.len()
            invariant
                s0.grows_to(*self),
                s0.data_model() == dm,
                ids@ == served_models(dm),
                k <= ids@.len(),
                forall|j: int| 0 <= j < ids@.len() ==> (#[trigger] ids@[j] as int) < dm.models@.len(),
                field_views(fields@) == query_fields(dm, ids@.take(k as int)),
                fields_within(field_views(fields@), self.outs(), self.ins()),
            decreases ids@.len() - k,
        {
            let mi = ids[k];
            let ghost fs0 = field_views(fields@);
            let ghost s1 = *self;
            let all = self.all_items_field(mi);
            push_field(&mut fields, all);
            proof {
                s1.lemma_fields_step(*self, fs0, all@);
            }
            let ghost fs1 = field_views(fields@);
            let ghost s2 = *self;
            match self.single_item_field(mi) {
                Some(single) => {
                    push_field(&mut fields, single);
                    proof {
                        s2.lemma_fields_step(*self, fs1, single@);
                    }
                },
                None => {
                    proof {
                        s2.lemma_grows(*self);
                        crate::schema::lemma_fields_within_grow(fs1, s2.outs(), s2.ins(), self.outs(), self.ins());
                    }
                },
            }
            assert(ids@.take(k + 1).drop_last() =~= ids@.take(k as int));
            assert(field_views(fields@) =~= query_fields(dm, ids@.take(k + 1)));
            k = k + 1;
        }
        assert(ids@.take(ids@.len() as int) =~= ids@);
        let query = ObjectType { identity: ObjectIdentity::Query, name: String::from_str("Query"), fields };
        (OutputType::Object(ObjectIdentity::Query), query)
    }

    /// Appends a field that may be absent, keeping the list within the
    /// builders' types.
    proof fn lemma_opt_field_step(
        &self,
        after: Self,
        fs: Seq<FieldView>,
        f: Option<Field>,
        expected: FieldView,
    ) -> (r: Seq<FieldView>)
        requires
            self.grows_to(after),
            fields_within(fs, self.outs(), self.ins()),
            f matches Some(g) ==> g@ == expected && field_within(g@, after.outs(), after.ins()),
        ensures
            r == (match f {
                Some(g) => fs.push(g@),
                None => fs,
            }),
            f matches Some(g) ==> r == fs.push(expected),
            fields_within(r, after.outs(), after.ins()),
    {
        match f {
            Some(g) => {
                self.lemma_fields_step(after, fs, g@);
                fs.push(g@)
            },
            None => {
                self.lemma_grows(after);
                crate::schema::lemma_fields_within_grow(fs, self.outs(), self.ins(), after.outs(), after.ins());
                fs
            },
        }
    }

    /// Builds the root mutation type.
    fn build_mutation_type(&mut self) -> (r: (OutputType, ObjectType))
        requires
            old(self).wf(),
        ensures
            old(self).grows_to(*final(self)),
            r.0 == OutputType::Object(ObjectIdentity::Mutation),
            r.1@ == mutation_type_view(old(self).data_model()),
            fields_within(r.1@.fields, final(self).outs(), final(self).ins()),
    {
        let ghost s0 = *self;
        let ghost dm = *self.internal_data_model;
        let ids = self.non_embedded_models();
        let mut fields: Vec<Field> = Vec::new();
        let mut k: usize = 0;
        while k < ids.len()
            invariant
                s0.grows_to(*self),
                s0.data_model() == dm,
                ids@ == served_models(dm),
                k <= ids@.len(),
                forall|j: int| 0 <= j < ids@.len() ==> (#[trigger] ids@[j] as int) < dm.models@.len(),
                field_views(fields@) == mutation_fields(dm, ids@.take(k as int)),
                fields_within(field_views(fields@), self.outs(), self.ins()),
            decreases ids@.len() - k,
        {
            let mi = ids[k];
            let ghost fs0 = field_views(fields@);
            let ghost s1 = *self;
            let create = self.create_item_field(mi);
            push_field(&mut fields, create);
            proof {
                s1.lemma_fields_step(*self, fs0, create@);
            }
            let ghost fs1 = field_views(fields@);
            let ghost s2 = *self;
            let delete = self.delete_item_field(mi);
            let ghost s3 = *self;
            let update = self.update_item_field(mi);
            let ghost s4 = *self;
            let upsert = self.upsert_item_field(mi);
            let ghost fs2 = s2.lemma_opt_field_step(s3, fs1, delete, delete_field_view(dm, mi));
            let ghost fs3 = s3.lemma_opt_field_step(s4, fs2, update, update_field_view(dm, mi));
            let ghost fs4 = s4.lemma_opt_field_step(*self, fs3, upsert, upsert_field_view(dm, mi));
            match delete {
                Some(f) => push_field(&mut fields, f),
                None => {},
            }
            match update {
                Some(f) => push_field(&mut fields, f),
                None => {},
            }
            match upsert {
                Some(f) => push_field(&mut fields, f),
                None => {},
            }
            assert(field_views(fields@) == fs4);
            let ghost s5 = *self;
            let update_many = self.update_many_field(mi);
            push_field(&mut fields, update_many);
            proof {
                s5.lemma_fields_step(*self, fs4, update_many@);
            }
            let ghost fs5 = field_views(fields@);
            let ghost s6 = *self;
            let delete_many = self.delete_many_field(mi);
            push_field(&mut fields, delete_many);
            proof {
                s6.lemma_fields_step(*self, fs5, delete_many@);
            }
            assert(ids@.take(k + 1).drop_last() =~= ids@.take(k as int));
            assert(field_views(fields@) =~= mutation_fields(dm, ids@.take(k + 1)));
            k = k + 1;
        }
        assert(ids@.take(ids@.len() as int) =~= ids@);
        let mutation = ObjectType {
            identity: ObjectIdentity::Mutation,
            name: String::from_str("Mutation"),
            fields,
        };
        (OutputType::Object(ObjectIdentity::Mutation), mutation)
    }

    /// Takes every type out of the builders: the filter types are merged
    /// into the input types. Consuming the builder ends every builder's life
    /// here, so nothing can still refer to their caches.
    fn collect_types(self) -> (r: (Vec<InputObjectType>, Vec<ObjectType>))
        ensures
            r.0@ == self.input_type_builder.cache_spec() + self.filter_object_type_builder.cache_spec(),
            r.1@ == self.object_type_builder.cache_spec(),
    {
        let output_objects = self.object_type_builder.into_types();
        let mut input_objects = self.input_type_builder.into_types();
        let mut filter_objects = self.filter_object_type_builder.into_types();
        input_objects.append(&mut filter_objects);
        (input_objects, output_objects)
    }

    /// Consumes the builder to create the query schema. Input types without
    /// fields (the update input of a model with no writable field) are kept.
    pub fn build(self) -> (r: QuerySchema)
        requires
            self.wf(),
        ensures
            r.query == OutputType::Object(ObjectIdentity::Query),
            r.mutation == OutputType::Object(ObjectIdentity::Mutation),
            schema_of(r, self.data_model(), self.capabilities_spec()),
            r.is_complete(),
    {
        let ghost dm = self.data_model();
        let ghost caps = self.capabilities_spec();
        let mut builder = self;
        let (query_type, query_object_ref) = builder.build_query_type();
        let ghost s1 = builder;
        let (mutation_type, mutation_object_ref) = builder.build_mutation_type();
        let ghost this = builder;
        proof {
            s1.lemma_grows(this);
            crate::schema::lemma_fields_within_grow(
                query_object_ref@.fields,
                s1.outs(),
                s1.ins(),
                this.outs(),
                this.ins(),
            );
            lemma_collected(
                dm,
                caps,
                this.object_type_builder,
                this.input_type_builder,
                this.filter_object_type_builder,
                query_object_ref,
                mutation_object_ref,
            );
        }
        let (input_objects, mut output_objects) = builder.collect_types();
        output_objects.push(query_object_ref);
        output_objects.push(mutation_object_ref);
        QuerySchema::new(query_type, mutation_type, input_objects, output_objects)
    }
}

/// A finished schema of `dm`: the root query and mutation types last among
/// the object types, before them the record types and batch payload, and
/// every input type as its builder makes it.
pub open spec fn schema_of(r: QuerySchema, dm: InternalDataModel, caps: SupportedCapabilities) -> bool {
    lists_of(r.output_object_types@, r.input_object_types@, dm, caps)
}

pub open spec fn lists_of(
    outs: Seq<ObjectType>,
    ins: Seq<InputObjectType>,
    dm: InternalDataModel,
    caps: SupportedCapabilities,
) -> bool {
    &&& outs.len() >= 2
    &&& outs[outs.len() - 2]@ == query_type_view(dm)
    &&& outs[outs.len() - 1]@ == mutation_type_view(dm)
    &&& forall|i: int| 0 <= i < outs.len() - 2 ==> built_object(dm, #[trigger] outs[i])
    &&& forall|i: int| 0 <= i < ins.len() ==> built_input(dm, caps, #[trigger] ins[i])
}

/// A record type of a model of `dm`, or the batch payload.
pub open spec fn built_object(dm: InternalDataModel, t: ObjectType) -> bool {
    &&& (t.identity is Model || t.identity is BatchPayload)
    &&& t.identity is Model ==> (t.identity->Model_0 as int) < dm.models@.len()
    &&& t@ == model_object_type(dm, t.identity)
}

/// A filter, create, update or unique-selector input of a model of `dm`.
pub open spec fn built_input(dm: InternalDataModel, caps: SupportedCapabilities, t: InputObjectType) -> bool {
    &&& (input_model(t.identity) as int) < dm.models@.len()
    &&& t.identity is Where ==> t@ == where_input_type(dm, t.identity->Where_0, caps)
    &&& t.identity !is Where ==> t@ == model_input_type(dm, t.identity)
}

/// The lists that `build` assembles from the builders' caches and the two
/// root types form a complete schema of `dm`.
proof fn lemma_collected(
    dm: InternalDataModel,
    caps: SupportedCapabilities,
    objects: ObjectTypeBuilder,
    inputs: InputTypeBuilder,
    filters: FilterObjectTypeBuilder,
    query: ObjectType,
    mutation: ObjectType,
)
    requires
        objects.wf(dm),
        inputs.wf(dm),
        filters.wf(dm),
        filters.capabilities_spec() == caps,
        query@ == query_type_view(dm),
        mutation@ == mutation_type_view(dm),
        fields_within(query@.fields, object_ids(objects.cache_spec()), built_inputs(inputs, filters)),
        fields_within(mutation@.fields, object_ids(objects.cache_spec()), built_inputs(inputs, filters)),
    ensures
        lists_of(
            objects.cache_spec().push(query).push(mutation),
            inputs.cache_spec() + filters.cache_spec(),
            dm,
            caps,
        ),
        complete_lists(
            OutputType::Object(ObjectIdentity::Query),
            OutputType::Object(ObjectIdentity::Mutation),
            objects.cache_spec().push(query).push(mutation),
            inputs.cache_spec() + filters.cache_spec(),
        ),
{
    let o = objects.cache_spec();
    let i = inputs.cache_spec();
    let f = filters.cache_spec();
    let outs = o.push(query).push(mutation);
    let ins = i + f;
    assert forall|k: int| 0 <= k < o.len() implies outs[k] == #[trigger] o[k] by {}
    assert forall|k: int| 0 <= k < i.len() implies ins[k] == #[trigger] i[k] by {}
    assert forall|k: int| 0 <= k < f.len() implies ins[i.len() + k] == #[trigger] f[k] by {}
    assert(outs[outs.len() - 2] == query);
    assert(outs[outs.len() - 1] == mutation);
    assert(has_object(outs, ObjectIdentity::Query)) by {
        assert(outs[outs.len() - 2].identity == ObjectIdentity::Query);
    }
    assert(has_object(outs, ObjectIdentity::Mutation)) by {
        assert(outs[outs.len() - 1].identity == ObjectIdentity::Mutation);
    }
    lemma_objects_grow(o, outs);
    lemma_inputs_grow(i, ins);
    assert(input_ids(f).subset_of(input_ids(ins))) by {
        assert forall|id: InputIdentity| input_ids(f).contains(id) implies input_ids(ins).contains(id) by {
            let k = choose|k: int| 0 <= k < f.len() && (#[trigger] f[k]).identity == id;
            assert(ins[i.len() + k] == f[k]);
        }
    }
    assert(built_inputs(inputs, filters).subset_of(input_ids(ins)));
    assert(distinct_objects(outs)) by {
        assert forall|a: int, b: int|
            0 <= a < outs.len() && 0 <= b < outs.len() && a != b implies (#[trigger] outs[a]).identity
            != (#[trigger] outs[b]).identity by {
            if a < o.len() && b < o.len() {
                assert(outs[a] == o[a] && outs[b] == o[b]);
            } else if a < o.len() {
                assert(outs[a] == o[a]);
            } else if b < o.len() {
                assert(outs[b] == o[b]);
            }
        }
    }
    assert(distinct_inputs(ins)) by {
        assert forall|a: int, b: int|
            0 <= a < ins.len() && 0 <= b < ins.len() && a != b implies (#[trigger] ins[a]).identity
            != (#[trigger] ins[b]).identity by {
            if a < i.len() && b < i.len() {
                assert(ins[a] == i[a] && ins[b] == i[b]);
            } else if a < i.len() {
                assert(ins[a] == i[a] && ins[b] == f[b - i.len()]);
            } else if b < i.len() {
                assert(ins[b] == i[b] && ins[a] == f[a - i.len()]);
            } else {
                assert(ins[a] == f[a - i.len()] && ins[b] == f[b - i.len()]);
            }
        }
    }
    assert forall|k: int| 0 <= k < outs.len() implies fields_within(
        (#[trigger] outs[k])@.fields,
        object_ids(outs),
        input_ids(ins),
    ) by {
        if k < o.len() {
            assert(outs[k] == o[k]);
            lemma_object_fields_scalar(dm, o[k].identity);
        } else if k == o.len() {
            lemma_fields_within_grow(query@.fields, object_ids(o), built_inputs(inputs, filters), object_ids(outs), input_ids(ins));
        } else {
            lemma_fields_within_grow(mutation@.fields, object_ids(o), built_inputs(inputs, filters), object_ids(outs), input_ids(ins));
        }
    }
    assert forall|k: int| 0 <= k < ins.len() implies input_fields_within((#[trigger] ins[k])@.fields, input_ids(ins)) by {
        if k < i.len() {
            assert(ins[k] == i[k]);
            let id = i[k].identity;
            lemma_input_fields_scalar(dm.models@[input_model(id) as int].fields@, id);
        } else {
            assert(ins[k] == f[k - i.len()]);
            lemma_filter_type_within(dm, caps, ins, k);
        }
    }
}

/// A filter type refers to itself alone: its `AND`, `OR` and `NOT` nest it.
proof fn lemma_filter_type_within(dm: InternalDataModel, caps: SupportedCapabilities, ins: Seq<InputObjectType>, k: int)
    requires
        0 <= k < ins.len(),
        ins[k].identity is Where,
        ins[k]@ == where_input_type(dm, ins[k].identity->Where_0, caps),
    ensures
        input_fields_within(ins[k]@.fields, input_ids(ins)),
{
    let mi = ins[k].identity->Where_0;
    let m = dm.models@[mi as int];
    let a = filter_conditions(m.fields@, caps);
    let b = logical_conditions(mi);
    lemma_conditions_scalar(m.fields@, caps);
    reveal_with_fuel(input_ref, 3);
    assert(has_input(ins, InputIdentity::Where(mi)));
    assert forall|j: int| 0 <= j < ins[k]@.fields.len() implies input_ref_within(
        #[trigger] ins[k]@.fields[j].field_type,
        input_ids(ins),
    ) by {
        if j < a.len() {
            assert(ins[k]@.fields[j] == a[j]);
        } else {
            assert(ins[k]@.fields[j] == b[j - a.len()]);
        }
    }
}

} // verus!
