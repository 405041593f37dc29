//! Which root fields each model gets, and which root fields refer to it.
use vstd::prelude::*;
use crate::argument_builder::{
    create_data_arg, delete_args, delete_many_args, update_args, update_many_args, upsert_args,
    where_unique_arg,
};
use crate::data_model::{has_unique_key, InternalDataModel, Model};
use crate::input_builder::input_model;
use crate::object_builder::many_records_args;
use crate::query_schema_builder::{
    all_items_field_view, create_field_view, delete_field_view, delete_many_field_view,
    lemma_non_embedded, model_mutation_fields, model_query_fields, mutation_fields,
    mutation_type_view, non_embedded, query_fields, query_type_view, served_models,
    single_item_field_view, update_field_view, update_many_field_view, upsert_field_view,
};
use crate::schema::{input_ref, output_ref, ArgumentView, FieldView, ObjectIdentity};

verus! {

/// The argument refers to an input type made for the model at `mi`.
pub open spec fn arg_refers(a: ArgumentView, mi: usize) -> bool {
    match input_ref(a.arg_type) {
        Some(id) => input_model(id) == mi,
        None => false,
    }
}

/// The field refers directly to the model at `mi`: it returns its record
/// type, or takes an input type made for it.
pub open spec fn refers_to_model(f: FieldView, mi: usize) -> bool {
    ||| output_ref(f.field_type) == Some(ObjectIdentity::Model(mi))
    ||| exists|k: int| 0 <= k < f.arguments.len() && arg_refers(#[trigger] f.arguments[k], mi)
}

/// Every type the arguments refer to is made for the model at `mi`.
spec fn args_of(args: Seq<ArgumentView>, mi: usize) -> bool {
    forall|k: int| 0 <= k < args.len() ==> match input_ref(#[trigger] args[k].arg_type) {
        Some(id) => input_model(id) == mi,
        None => true,
    }
}

/// The field refers to the model at `mi` and to the batch payload only.
spec fn field_of(f: FieldView, mi: usize) -> bool {
    &&& output_ref(f.field_type) matches Some(o) && (o == ObjectIdentity::Model(mi) || o
        == ObjectIdentity::BatchPayload)
    &&& args_of(f.arguments, mi)
}

proof fn lemma_field_of_refers(f: FieldView, mj: usize, mi: usize)
    requires
        field_of(f, mj),
        refers_to_model(f, mi),
    ensures
        mi == mj,
{
    if output_ref(f.field_type) != Some(ObjectIdentity::Model(mi)) {
        let k = choose|k: int| 0 <= k < f.arguments.len() && arg_refers(#[trigger] f.arguments[k], mi);
        assert(args_of(f.arguments, mj));
    }
}

/// Every root field of a model refers to that model (and the batch payload) alone.
proof fn lemma_block_fields(dm: InternalDataModel, mj: usize)
    ensures
        forall|k: int| 0 <= k < model_query_fields(dm, mj).len() ==> field_of(#[trigger] model_query_fields(dm, mj)[k], mj),
        forall|k: int| 0 <= k < model_mutation_fields(dm, mj).len() ==> field_of(#[trigger] model_mutation_fields(dm, mj)[k], mj),
{
    reveal_with_fuel(output_ref, 3);
    reveal_with_fuel(input_ref, 3);
    assert(args_of(many_records_args(mj), mj));
    assert(args_of(seq![where_unique_arg(mj)], mj));
    assert(args_of(seq![create_data_arg(mj)], mj));
    assert(args_of(seq![], mj));
    assert(args_of(delete_args(mj), mj));
    assert(args_of(update_args(mj), mj));
    assert(args_of(upsert_args(dm, mj), mj));
    assert(args_of(update_many_args(mj), mj));
    assert(args_of(delete_many_args(mj), mj));
    assert(field_of(all_items_field_view(dm, mj), mj));
    assert(field_of(single_item_field_view(dm, mj), mj));
    assert(field_of(create_field_view(dm, mj), mj));
    assert(field_of(delete_field_view(dm, mj), mj));
    assert(field_of(update_field_view(dm, mj), mj));
    assert(field_of(upsert_field_view(dm, mj), mj));
    assert(field_of(update_many_field_view(dm, mj), mj));
    assert(field_of(delete_many_field_view(dm, mj), mj));
}

/// Every field of the root query type comes from the block of one model.
proof fn lemma_query_origin(dm: InternalDataModel, ids: Seq<usize>, k: int)
    requires
        0 <= k < query_fields(dm, ids).len(),
    ensures
        exists|j: int| 0 <= j < ids.len() && model_query_fields(dm, #[trigger] ids[j]).contains(query_fields(dm, ids)[k]),
    decreases ids.len(),
{
    let a = query_fields(dm, ids.drop_last());
    let b = model_query_fields(dm, ids.last());
    if k < a.len() {
        assert(query_fields(dm, ids)[k] == a[k]);
        lemma_query_origin(dm, ids.drop_last(), k);
        let j = choose|j: int| 0 <= j < ids.drop_last().len() && model_query_fields(dm, #[trigger] ids.drop_last()[j]).contains(a[k]);
        assert(ids.drop_last()[j] == ids[j]);
    } else {
        assert(query_fields(dm, ids)[k] == b[k - a.len()]);
        assert(b.contains(b[k - a.len()]));
        assert(ids[ids.len() - 1] == ids.last());
    }
}

/// Every field of the root mutation type comes from the block of one model.
proof fn lemma_mutation_origin(dm: InternalDataModel, ids: Seq<usize>, k: int)
    requires
        0 <= k < mutation_fields(dm, ids).len(),
    ensures
        exists|j: int| 0 <= j < ids.len() && model_mutation_fields(dm, #[trigger] ids[j]).contains(mutation_fields(dm, ids)[k]),
    decreases ids.len(),
{
    let a = mutation_fields(dm, ids.drop_last());
    let b = model_mutation_fields(dm, ids.last());
    if k < a.len() {
        assert(mutation_fields(dm, ids)[k] == a[k]);
        lemma_mutation_origin(dm, ids.drop_last(), k);
        let j = choose|j: int| 0 <= j < ids.drop_last().len() && model_mutation_fields(dm, #[trigger] ids.drop_last()[j]).contains(a[k]);
        assert(ids.drop_last()[j] == ids[j]);
    } else {
        assert(mutation_fields(dm, ids)[k] == b[k - a.len()]);
        assert(b.contains(b[k - a.len()]));
        assert(ids[ids.len() - 1] == ids.last());
    }
}

/// The block of every listed model is part of the root types.
proof fn lemma_blocks_included(dm: InternalDataModel, ids: Seq<usize>, j: int)
    requires
        0 <= j < ids.len(),
    ensures
        forall|x: FieldView| model_query_fields(dm, ids[j]).contains(x) ==> #[trigger] query_fields(dm, ids).contains(x),
        forall|x: FieldView| model_mutation_fields(dm, ids[j]).contains(x) ==> #[trigger] mutation_fields(dm, ids).contains(x),
    decreases ids.len(),
{
    let qa = query_fields(dm, ids.drop_last());
    let ma = mutation_fields(dm, ids.drop_last());
    if j < ids.len() - 1 {
        lemma_blocks_included(dm, ids.drop_last(), j);
        assert(ids.drop_last()[j] == ids[j]);
        assert forall|x: FieldView| model_query_fields(dm, ids[j]).contains(x) implies #[trigger] query_fields(dm, ids).contains(x) by {
            assert(qa.contains(x));
            let i = choose|i: int| 0 <= i < qa.len() && qa[i] == x;
            assert(query_fields(dm, ids)[i] == x);
        }
        assert forall|x: FieldView| model_mutation_fields(dm, ids[j]).contains(x) implies #[trigger] mutation_fields(dm, ids).contains(x) by {
            assert(ma.contains(x));
            let i = choose|i: int| 0 <= i < ma.len() && ma[i] == x;
            assert(mutation_fields(dm, ids)[i] == x);
        }
    } else {
        let qb = model_query_fields(dm, ids[j]);
        let mb = model_mutation_fields(dm, ids[j]);
        assert forall|x: FieldView| qb.contains(x) implies #[trigger] query_fields(dm, ids).contains(x) by {
            let i = choose|i: int| 0 <= i < qb.len() && qb[i] == x;
            assert(query_fields(dm, ids)[qa.len() + i] == x);
        }
        assert forall|x: FieldView| mb.contains(x) implies #[trigger] mutation_fields(dm, ids).contains(x) by {
            let i = choose|i: int| 0 <= i < mb.len() && mb[i] == x;
            assert(mutation_fields(dm, ids)[ma.len() + i] == x);
        }
    }
}

/// A model that is not embedded is served.
proof fn lemma_served(models: Seq<Model>, n: int, mi: usize)
    requires
        0 <= mi < n <= models.len(),
        n <= usize::MAX,
        !models[mi as int].is_embedded,
    ensures
        exists|j: int| 0 <= j < non_embedded(models, n).len() && #[trigger] non_embedded(models, n)[j] == mi,
    decreases n,
{
    if mi < n - 1 {
        lemma_served(models, n - 1, mi);
        let j = choose|j: int| 0 <= j < non_embedded(models, n - 1).len() && #[trigger] non_embedded(models, n - 1)[j] == mi;
        assert(non_embedded(models, n)[j] == non_embedded(models, n - 1)[j]);
    } else {
        let len = non_embedded(models, n - 1).len();
        assert(non_embedded(models, n)[len as int] == mi);
    }
}

/// A model that is not embedded and has a unique key gets both queries, the
/// collection and the single record, and all six mutations: create, delete,
/// update, upsert, update-many and delete-many.
pub proof fn lemma_unique_model_fields(dm: InternalDataModel, mi: usize)
    requires
        mi < dm.models@.len() <= usize::MAX,
        !dm.models@[mi as int].is_embedded,
        has_unique_key(dm.models@[mi as int]),
    ensures
        query_type_view(dm).fields.contains(all_items_field_view(dm, mi)),
        query_type_view(dm).fields.contains(single_item_field_view(dm, mi)),
        mutation_type_view(dm).fields.contains(create_field_view(dm, mi)),
        mutation_type_view(dm).fields.contains(delete_field_view(dm, mi)),
        mutation_type_view(dm).fields.contains(update_field_view(dm, mi)),
        mutation_type_view(dm).fields.contains(upsert_field_view(dm, mi)),
        mutation_type_view(dm).fields.contains(update_many_field_view(dm, mi)),
        mutation_type_view(dm).fields.contains(delete_many_field_view(dm, mi)),
{
    let ids = served_models(dm);
    lemma_served(dm.models@, dm.models@.len() as int, mi);
    let j = choose|j: int| 0 <= j < ids.len() && #[trigger] ids[j] == mi;
    lemma_blocks_included(dm, ids, j);
    let q = model_query_fields(dm, mi);
    let m = model_mutation_fields(dm, mi);
    assert(q[0] == all_items_field_view(dm, mi) && q[1] == single_item_field_view(dm, mi));
    assert(q.contains(q[0]) && q.contains(q[1]));
    assert(m[0] == create_field_view(dm, mi) && m[1] == delete_field_view(dm, mi));
    assert(m[2] == update_field_view(dm, mi) && m[3] == upsert_field_view(dm, mi));
    assert(m[4] == update_many_field_view(dm, mi) && m[5] == delete_many_field_view(dm, mi));
    assert(m.contains(m[0]) && m.contains(m[1]) && m.contains(m[2]));
    assert(m.contains(m[3]) && m.contains(m[4]) && m.contains(m[5]));
}

/// A model that is not embedded and has no unique key gets the collection
/// query alone, and the create, update-many and delete-many mutations alone:
/// no other root field refers to it.
pub proof fn lemma_keyless_model_fields(dm: InternalDataModel, mi: usize)
    requires
        mi < dm.models@.len() <= usize::MAX,
        !dm.models@[mi as int].is_embedded,
        !has_unique_key(dm.models@[mi as int]),
    ensures
        query_type_view(dm).fields.contains(all_items_field_view(dm, mi)),
        forall|k: int|
            0 <= k < query_type_view(dm).fields.len() && refers_to_model(
                #[trigger] query_type_view(dm).fields[k],
                mi,
            ) ==> query_type_view(dm).fields[k] == all_items_field_view(dm, mi),
        mutation_type_view(dm).fields.contains(create_field_view(dm, mi)),
        mutation_type_view(dm).fields.contains(update_many_field_view(dm, mi)),
        mutation_type_view(dm).fields.contains(delete_many_field_view(dm, mi)),
        forall|k: int|
            0 <= k < mutation_type_view(dm).fields.len() && refers_to_model(
                #[trigger] mutation_type_view(dm).fields[k],
                mi,
            ) ==> {
                let f = mutation_type_view(dm).fields[k];
                f == create_field_view(dm, mi) || f == update_many_field_view(dm, mi) || f
                    == delete_many_field_view(dm, mi)
            },
{
    let ids = served_models(dm);
    lemma_served(dm.models@, dm.models@.len() as int, mi);
    let j = choose|j: int| 0 <= j < ids.len() && #[trigger] ids[j] == mi;
    lemma_blocks_included(dm, ids, j);
    let q = model_query_fields(dm, mi);
    let m = model_mutation_fields(dm, mi);
    assert(q =~= seq![all_items_field_view(dm, mi)]);
    assert(m =~= seq![create_field_view(dm, mi), update_many_field_view(dm, mi), delete_many_field_view(dm, mi)]);
    assert(q.contains(q[0]));
    assert(m.contains(m[0]) && m.contains(m[1]) && m.contains(m[2]));
    assert forall|k: int|
        0 <= k < query_type_view(dm).fields.len() && refers_to_model(
            #[trigger] query_type_view(dm).fields[k],
            mi,
        ) implies query_type_view(dm).fields[k] == all_items_field_view(dm, mi) by {
        let x = query_type_view(dm).fields[k];
        lemma_query_origin(dm, ids, k);
        let j2 = choose|j2: int| 0 <= j2 < ids.len() && model_query_fields(dm, #[trigger] ids[j2]).contains(x);
        lemma_block_fields(dm, ids[j2]);
        let i = choose|i: int| 0 <= i < model_query_fields(dm, ids[j2]).len() && model_query_fields(dm, ids[j2])[i] == x;
        lemma_field_of_refers(x, ids[j2], mi);
    }
    assert forall|k: int|
        0 <= k < mutation_type_view(dm).fields.len() && refers_to_model(
            #[trigger] mutation_type_view(dm).fields[k],
            mi,
        ) implies {
            let f = mutation_type_view(dm).fields[k];
            f == create_field_view(dm, mi) || f == update_many_field_view(dm, mi) || f
                == delete_many_field_view(dm, mi)
        } by {
        let x = mutation_type_view(dm).fields[k];
        lemma_mutation_origin(dm, ids, k);
        let j2 = choose|j2: int| 0 <= j2 < ids.len() && model_mutation_fields(dm, #[trigger] ids[j2]).contains(x);
        lemma_block_fields(dm, ids[j2]);
        let i = choose|i: int| 0 <= i < model_mutation_fields(dm, ids[j2]).len() && model_mutation_fields(dm, ids[j2])[i] == x;
        lemma_field_of_refers(x, ids[j2], mi);
    }
}

/// No root field refers to an embedded model.
pub proof fn lemma_embedded_model_absent(dm: InternalDataModel, mi: usize)
    requires
        mi < dm.models@.len() <= usize::MAX,
        dm.models@[mi as int].is_embedded,
    ensures
        forall|k: int|
            0 <= k < query_type_view(dm).fields.len() ==> !refers_to_model(
                #[trigger] query_type_view(dm).fields[k],
                mi,
            ),
        forall|k: int|
            0 <= k < mutation_type_view(dm).fields.len() ==> !refers_to_model(
                #[trigger] mutation_type_view(dm).fields[k],
                mi,
            ),
{
    let ids = served_models(dm);
    lemma_non_embedded(dm.models@, dm.models@.len() as int);
    assert forall|k: int| 0 <= k < query_type_view(dm).fields.len() implies !refers_to_model(
        #[trigger] query_type_view(dm).fields[k],
        mi,
    ) by {
        let x = query_type_view(dm).fields[k];
        lemma_query_origin(dm, ids, k);
        let j2 = choose|j2: int| 0 <= j2 < ids.len() && model_query_fields(dm, #[trigger] ids[j2]).contains(x);
        lemma_block_fields(dm, ids[j2]);
        let i = choose|i: int| 0 <= i < model_query_fields(dm, ids[j2]).len() && model_query_fields(dm, ids[j2])[i] == x;
        if refers_to_model(x, mi) {
            lemma_field_of_refers(x, ids[j2], mi);
        }
    }
    assert forall|k: int| 0 <= k < mutation_type_view(dm).fields.len() implies !refers_to_model(
        #[trigger] mutation_type_view(dm).fields[k],
        mi,
    ) by {
        let x = mutation_type_view(dm).fields[k];
        lemma_mutation_origin(dm, ids, k);
        let j2 = choose|j2: int| 0 <= j2 < ids.len() && model_mutation_fields(dm, #[trigger] ids[j2]).contains(x);
        lemma_block_fields(dm, ids[j2]);
        let i = choose|i: int| 0 <= i < model_mutation_fields(dm, ids[j2]).len() && model_mutation_fields(dm, ids[j2])[i] == x;
        if refers_to_model(x, mi) {
            lemma_field_of_refers(x, ids[j2], mi);
        }
    }
}

} // verus!
