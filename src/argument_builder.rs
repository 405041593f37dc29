//! Builds the argument lists of root fields: unique selectors, create and
//! update payloads, and many-record filters.
use vstd::prelude::*;
use crate::data_model::{has_settable_field, has_unique_key, InternalDataModel};
use crate::filter_builder::FilterObjectTypeBuilder;
use crate::input_builder::InputTypeBuilder;
use crate::schema::{
    argument, argument_views, extends, input_ids, input_opt, input_ref,
    input_ref_within, lemma_input_lookup_extends, lemma_inputs_grow, opt_in, push_argument,
    Argument, ArgumentView, InputIdentity, InputType,
};

verus! {

pub open spec fn object_arg(name: Seq<char>, id: InputIdentity) -> ArgumentView {
    ArgumentView { name, arg_type: InputType::Object(id) }
}

/// The optional `where` filter of many-record mutations.
pub open spec fn filter_arg(mi: usize) -> ArgumentView {
    ArgumentView { name: "where"@, arg_type: opt_in(InputType::Object(InputIdentity::Where(mi))) }
}

pub open spec fn where_unique_arg(mi: usize) -> ArgumentView {
    object_arg("where"@, InputIdentity::WhereUnique(mi))
}

pub open spec fn create_data_arg(mi: usize) -> ArgumentView {
    object_arg("data"@, InputIdentity::Create(mi))
}

pub open spec fn update_data_arg(mi: usize) -> ArgumentView {
    object_arg("data"@, InputIdentity::Update(mi))
}

pub open spec fn delete_args(mi: usize) -> Seq<ArgumentView> {
    seq![where_unique_arg(mi)]
}

pub open spec fn update_args(mi: usize) -> Seq<ArgumentView> {
    seq![update_data_arg(mi), where_unique_arg(mi)]
}

/// Upsert takes the selector, the create payload where the model has one,
/// and the update payload.
pub open spec fn upsert_args(dm: InternalDataModel, mi: usize) -> Seq<ArgumentView> {
    seq![where_unique_arg(mi)] + (if has_settable_field(dm.models@[mi as int]) {
        seq![object_arg("create"@, InputIdentity::Create(mi))]
    } else {
        seq![]
    }) + seq![object_arg("update"@, InputIdentity::Update(mi))]
}

pub open spec fn update_many_args(mi: usize) -> Seq<ArgumentView> {
    seq![update_data_arg(mi), filter_arg(mi)]
}

pub open spec fn delete_many_args(mi: usize) -> Seq<ArgumentView> {
    seq![filter_arg(mi)]
}

/// Every argument refers only to input types of `ins`.
pub open spec fn args_within(args: Seq<ArgumentView>, ins: Set<InputIdentity>) -> bool {
    forall|k: int| 0 <= k < args.len() ==> input_ref_within(#[trigger] args[k].arg_type, ins)
}

/// What refers only to types of a set refers only to types of a larger one.
pub proof fn lemma_args_within_grow(args: Seq<ArgumentView>, i1: Set<InputIdentity>, i2: Set<InputIdentity>)
    requires
        args_within(args, i1),
        i1.subset_of(i2),
    ensures
        args_within(args, i2),
{
    assert forall|k: int| 0 <= k < args.len() implies input_ref_within(#[trigger] args[k].arg_type, i2) by {
        assert(input_ref_within(args[k].arg_type, i1));
    }
}

/// The input types reachable through the two builders' caches.
pub open spec fn built_inputs(inputs: InputTypeBuilder, filters: FilterObjectTypeBuilder) -> Set<InputIdentity> {
    input_ids(inputs.cache_spec()).union(input_ids(filters.cache_spec()))
}

/// One step of the input builder: still well formed, and only appended to.
pub open spec fn input_step(dm: InternalDataModel, before: InputTypeBuilder, after: InputTypeBuilder) -> bool {
    &&& after.wf(dm)
    &&& extends(before.cache_spec(), after.cache_spec())
}

/// One step of the filter builder: still well formed, and only appended to.
pub open spec fn filter_step(
    dm: InternalDataModel,
    before: FilterObjectTypeBuilder,
    after: FilterObjectTypeBuilder,
) -> bool {
    &&& after.wf(dm)
    &&& after.capabilities_spec() == before.capabilities_spec()
    &&& extends(before.cache_spec(), after.cache_spec())
}

/// The unique-selector argument of the model at `mi`; none when the model
/// has no unique field.
pub fn where_unique_argument(dm: &InternalDataModel, inputs: &mut InputTypeBuilder, mi: usize) -> (r: Option<Argument>)
    requires
        old(inputs).wf(*dm),
        mi < dm.models@.len(),
    ensures
        input_step(*dm, *old(inputs), *final(inputs)),
        has_unique_key(dm.models@[mi as int]) <==> r is Some,
        r matches Some(a) ==> a@ == where_unique_arg(mi) && input_ids(final(inputs).cache_spec()).contains(InputIdentity::WhereUnique(mi)),
{
    let ghost c0 = inputs.cache_spec();
    match inputs.where_unique_input_type(dm, mi) {
        Some(id) => {
            proof { lemma_input_lookup_extends(c0, inputs.cache_spec(), id); }
            Some(argument("where", InputType::Object(id)))
        },
        None => None,
    }
}

/// The payload argument of the create mutation; none when no field of the
/// model is writable.
pub fn create_arguments(dm: &InternalDataModel, inputs: &mut InputTypeBuilder, mi: usize) -> (r: Option<Vec<Argument>>)
    requires
        old(inputs).wf(*dm),
        mi < dm.models@.len(),
    ensures
        input_step(*dm, *old(inputs), *final(inputs)),
        has_settable_field(dm.models@[mi as int]) <==> r is Some,
        r matches Some(a) ==> argument_views(a@) == seq![create_data_arg(mi)] && args_within(
            argument_views(a@),
            input_ids(final(inputs).cache_spec()),
        ),
{
    let ghost c0 = inputs.cache_spec();
    match inputs.create_input_type(dm, mi) {
        Some(id) => {
            proof { lemma_input_lookup_extends(c0, inputs.cache_spec(), id); }
            let mut args: Vec<Argument> = Vec::new();
            push_argument(&mut args, argument("data", InputType::Object(id)));
            assert(argument_views(args@) =~= seq![create_data_arg(mi)]);
            Some(args)
        },
        None => None,
    }
}

/// The selector argument of the delete mutation; none without a unique key.
pub fn delete_arguments(dm: &InternalDataModel, inputs: &mut InputTypeBuilder, mi: usize) -> (r: Option<Vec<Argument>>)
    requires
        old(inputs).wf(*dm),
        mi < dm.models@.len(),
    ensures
        input_step(*dm, *old(inputs), *final(inputs)),
        has_unique_key(dm.models@[mi as int]) <==> r is Some,
        r matches Some(a) ==> argument_views(a@) == delete_args(mi) && args_within(
            argument_views(a@),
            input_ids(final(inputs).cache_spec()),
        ),
{
    match where_unique_argument(dm, inputs, mi) {
        Some(selector) => {
            let mut args: Vec<Argument> = Vec::new();
            push_argument(&mut args, selector);
            assert(argument_views(args@) =~= delete_args(mi));
            Some(args)
        },
        None => None,
    }
}

/// The payload and selector arguments of the update mutation; none without
/// a unique key.
pub fn update_arguments(dm: &InternalDataModel, inputs: &mut InputTypeBuilder, mi: usize) -> (r: Option<Vec<Argument>>)
    requires
        old(inputs).wf(*dm),
        mi < dm.models@.len(),
    ensures
        input_step(*dm, *old(inputs), *final(inputs)),
        has_unique_key(dm.models@[mi as int]) <==> r is Some,
        r matches Some(a) ==> argument_views(a@) == update_args(mi) && args_within(
            argument_views(a@),
            input_ids(final(inputs).cache_spec()),
        ),
{
    let ghost c0 = inputs.cache_spec();
    match where_unique_argument(dm, inputs, mi) {
        Some(selector) => {
            let ghost c1 = inputs.cache_spec();
            let data = inputs.update_input_type(dm, mi);
            proof {
                lemma_input_lookup_extends(c1, inputs.cache_spec(), data);
                lemma_inputs_grow(c1, inputs.cache_spec());
            }
            let mut args: Vec<Argument> = Vec::new();
            push_argument(&mut args, argument("data", InputType::Object(data)));
            push_argument(&mut args, selector);
            assert(argument_views(args@) =~= update_args(mi));
            Some(args)
        },
        None => None,
    }
}

/// The selector, create and update arguments of the upsert mutation; none
/// without a unique key.
pub fn upsert_arguments(dm: &InternalDataModel, inputs: &mut InputTypeBuilder, mi: usize) -> (r: Option<Vec<Argument>>)
    requires
        old(inputs).wf(*dm),
        mi < dm.models@.len(),
    ensures
        input_step(*dm, *old(inputs), *final(inputs)),
        has_unique_key(dm.models@[mi as int]) <==> r is Some,
        r matches Some(a) ==> argument_views(a@) == upsert_args(*dm, mi) && args_within(
            argument_views(a@),
            input_ids(final(inputs).cache_spec()),
        ),
{
    match where_unique_argument(dm, inputs, mi) {
        Some(selector) => {
            let ghost c1 = inputs.cache_spec();
            let mut args: Vec<Argument> = Vec::new();
            push_argument(&mut args, selector);
            let create = inputs.create_input_type(dm, mi);
            let ghost c2 = inputs.cache_spec();
            proof {
                if create is Some {
                    lemma_input_lookup_extends(c1, c2, InputIdentity::Create(mi));
                }
                lemma_inputs_grow(c1, c2);
            }
            match create {
                Some(id) => push_argument(&mut args, argument("create", InputType::Object(id))),
                None => {},
            }
            let update = inputs.update_input_type(dm, mi);
            proof {
                lemma_input_lookup_extends(c2, inputs.cache_spec(), update);
                lemma_inputs_grow(c2, inputs.cache_spec());
            }
            push_argument(&mut args, argument("update", InputType::Object(update)));
            assert(argument_views(args@) =~= upsert_args(*dm, mi));
            Some(args)
        },
        None => None,
    }
}

/// The payload and filter arguments of the update-many mutation.
pub fn update_many_arguments(
    dm: &InternalDataModel,
    inputs: &mut InputTypeBuilder,
    filters: &mut FilterObjectTypeBuilder,
    mi: usize,
) -> (r: Vec<Argument>)
    requires
        old(inputs).wf(*dm),
        old(filters).wf(*dm),
        mi < dm.models@.len(),
    ensures
        input_step(*dm, *old(inputs), *final(inputs)),
        filter_step(*dm, *old(filters), *final(filters)),
        argument_views(r@) == update_many_args(mi),
        args_within(argument_views(r@), built_inputs(*final(inputs), *final(filters))),
{
    let ghost c0 = inputs.cache_spec();
    let ghost f0 = filters.cache_spec();
    let data = inputs.update_input_type(dm, mi);
    let filter = filters.filter_object_type(dm, mi);
    proof {
        lemma_input_lookup_extends(c0, inputs.cache_spec(), data);
        lemma_input_lookup_extends(f0, filters.cache_spec(), filter);
        reveal_with_fuel(input_ref, 2);
    }
    let mut args: Vec<Argument> = Vec::new();
    push_argument(&mut args, argument("data", InputType::Object(data)));
    push_argument(&mut args, argument("where", input_opt(InputType::Object(filter))));
    assert(argument_views(args@) =~= update_many_args(mi));
    args
}

/// The filter argument of the delete-many mutation.
pub fn delete_many_arguments(dm: &InternalDataModel, filters: &mut FilterObjectTypeBuilder, mi: usize) -> (r: Vec<Argument>)
    requires
        old(filters).wf(*dm),
        mi < dm.models@.len(),
    ensures
        filter_step(*dm, *old(filters), *final(filters)),
        argument_views(r@) == delete_many_args(mi),
        args_within(argument_views(r@), input_ids(final(filters).cache_spec())),
{
    let ghost f0 = filters.cache_spec();
    let filter = filters.filter_object_type(dm, mi);
    proof {
        lemma_input_lookup_extends(f0, filters.cache_spec(), filter);
        reveal_with_fuel(input_ref, 2);
    }
    let mut args: Vec<Argument> = Vec::new();
    push_argument(&mut args, argument("where", input_opt(InputType::Object(filter))));
    assert(argument_views(args@) =~= delete_many_args(mi));
    args
}

} // verus!
