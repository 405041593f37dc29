//! The shape of a query schema: object types returned by the schema, input
//! types accepted by it, their fields and arguments.
//!
//! A reference from one type to another is a non-owning handle: the identity
//! of the referenced type, which is looked up in the schema's flat lists.
use vstd::prelude::*;
use crate::data_model::ScalarType;

verus! {

/// The logical identity of an object type: what it was built for.
#[derive(Clone, Copy, Debug, PartialEq, Eq, Structural)]
pub enum ObjectIdentity {
    /// The record type of the model at this position of the data model.
    Model(usize),
    /// The shared payload of many-record mutations.
    BatchPayload,
    Query,
    Mutation,
}

/// The logical identity of an input object type: model position and purpose.
#[derive(Clone, Copy, Debug, PartialEq, Eq, Structural)]
pub enum InputIdentity {
    /// The "where" filter of a model.
    Where(usize),
    Create(usize),
    Update(usize),
    /// The unique selector of a model.
    WhereUnique(usize),
}

/// The type of an output field.
#[derive(Debug)]
pub enum OutputType {
    Scalar(ScalarType),
    Object(ObjectIdentity),
    List(Box<OutputType>),
    Opt(Box<OutputType>),
}

/// The type of an argument or of an input field.
#[derive(Debug)]
pub enum InputType {
    Scalar(ScalarType),
    Object(InputIdentity),
    List(Box<InputType>),
    Opt(Box<InputType>),
}

/// The object type an output type refers to, if any.
pub open spec fn output_ref(t: OutputType) -> Option<ObjectIdentity>
    decreases t,
{
    match t {
        OutputType::Scalar(_) => None,
        OutputType::Object(id) => Some(id),
        OutputType::List(b) => output_ref(*b),
        OutputType::Opt(b) => output_ref(*b),
    }
}

/// The input object type an input type refers to, if any.
pub open spec fn input_ref(t: InputType) -> Option<InputIdentity>
    decreases t,
{
    match t {
        InputType::Scalar(_) => None,
        InputType::Object(id) => Some(id),
        InputType::List(b) => input_ref(*b),
        InputType::Opt(b) => input_ref(*b),
    }
}

pub open spec fn opt_out(t: OutputType) -> OutputType {
    OutputType::Opt(Box::new(t))
}

pub open spec fn list_out(t: OutputType) -> OutputType {
    OutputType::List(Box::new(t))
}

pub open spec fn opt_in(t: InputType) -> InputType {
    InputType::Opt(Box::new(t))
}

pub open spec fn list_in(t: InputType) -> InputType {
    InputType::List(Box::new(t))
}

pub fn output_opt(t: OutputType) -> (r: OutputType)
    ensures
        r == opt_out(t),
{
    OutputType::Opt(Box::new(t))
}

pub fn output_list(t: OutputType) -> (r: OutputType)
    ensures
        r == list_out(t),
{
    OutputType::List(Box::new(t))
}

pub fn input_opt(t: InputType) -> (r: InputType)
    ensures
        r == opt_in(t),
{
    InputType::Opt(Box::new(t))
}

pub fn input_list(t: InputType) -> (r: InputType)
    ensures
        r == list_in(t),
{
    InputType::List(Box::new(t))
}

/// A named input slot of a field.
pub struct Argument {
    pub name: String,
    pub arg_type: InputType,
}

pub struct ArgumentView {
    pub name: Seq<char>,
    pub arg_type: InputType,
}

impl View for Argument {
    type V = ArgumentView;

    open spec fn view(&self) -> ArgumentView {
        ArgumentView { name: self.name@, arg_type: self.arg_type }
    }
}

pub open spec fn argument_views(s: Seq<Argument>) -> Seq<ArgumentView> {
    s.map_values(|a: Argument| a@)
}

/// A named, typed slot of an object type, with its arguments.
pub struct Field {
    pub name: String,
    pub arguments: Vec<Argument>,
    pub field_type: OutputType,
}

pub struct FieldView {
    pub name: Seq<char>,
    pub arguments: Seq<ArgumentView>,
    pub field_type: OutputType,
}

impl View for Field {
    type V = FieldView;

    open spec fn view(&self) -> FieldView {
        FieldView {
            name: self.name@,
            arguments: argument_views(self.arguments@),
            field_type: self.field_type,
        }
    }
}

pub open spec fn field_views(s: Seq<Field>) -> Seq<FieldView> {
    s.map_values(|f: Field| f@)
}

/// A named, typed slot of an input object type.
pub struct InputField {
    pub name: String,
    pub field_type: InputType,
}

pub struct InputFieldView {
    pub name: Seq<char>,
    pub field_type: InputType,
}

impl View for InputField {
    type V = InputFieldView;

    open spec fn view(&self) -> InputFieldView {
        InputFieldView { name: self.name@, field_type: self.field_type }
    }
}

pub open spec fn input_field_views(s: Seq<InputField>) -> Seq<InputFieldView> {
    s.map_values(|f: InputField| f@)
}

/// A composite type of values the schema returns.
pub struct ObjectType {
    pub identity: ObjectIdentity,
    pub name: String,
    pub fields: Vec<Field>,
}

pub struct ObjectTypeView {
    pub identity: ObjectIdentity,
    pub name: Seq<char>,
    pub fields: Seq<FieldView>,
}

impl View for ObjectType {
    type V = ObjectTypeView;

    open spec fn view(&self) -> ObjectTypeView {
        ObjectTypeView { identity: self.identity, name: self.name@, fields: field_views(self.fields@) }
    }
}

/// A composite type of values the schema accepts.
pub struct InputObjectType {
    pub identity: InputIdentity,
    pub name: String,
    pub fields: Vec<InputField>,
}

pub struct InputObjectTypeView {
    pub identity: InputIdentity,
    pub name: Seq<char>,
    pub fields: Seq<InputFieldView>,
}

impl View for InputObjectType {
    type V = InputObjectTypeView;

    open spec fn view(&self) -> InputObjectTypeView {
        InputObjectTypeView {
            identity: self.identity,
            name: self.name@,
            fields: input_field_views(self.fields@),
        }
    }
}

pub fn argument(name: &str, arg_type: InputType) -> (r: Argument)
    ensures
        r@ == (ArgumentView { name: name@, arg_type }),
{
    Argument { name: String::from_str(name), arg_type }
}

pub fn field(name: String, arguments: Vec<Argument>, field_type: OutputType) -> (r: Field)
    ensures
        r@ == (FieldView { name: name@, arguments: argument_views(arguments@), field_type }),
{
    Field { name, arguments, field_type }
}

pub fn input_field(name: String, field_type: InputType) -> (r: InputField)
    ensures
        r@ == (InputFieldView { name: name@, field_type }),
{
    InputField { name, field_type }
}


/// Some type in the list carries this identity.
pub open spec fn has_object(s: Seq<ObjectType>, id: ObjectIdentity) -> bool {
    exists|i: int| 0 <= i < s.len() && (#[trigger] s[i]).identity == id
}

/// Some type in the list carries this identity.
pub open spec fn has_input(s: Seq<InputObjectType>, id: InputIdentity) -> bool {
    exists|i: int| 0 <= i < s.len() && (#[trigger] s[i]).identity == id
}

/// No two types of the list share an identity.
pub open spec fn distinct_objects(s: Seq<ObjectType>) -> bool {
    forall|i: int, j: int|
        0 <= i < s.len() && 0 <= j < s.len() && i != j ==> (#[trigger] s[i]).identity != (
        #[trigger] s[j]).identity
}

/// No two types of the list share an identity.
pub open spec fn distinct_inputs(s: Seq<InputObjectType>) -> bool {
    forall|i: int, j: int|
        0 <= i < s.len() && 0 <= j < s.len() && i != j ==> (#[trigger] s[i]).identity != (
        #[trigger] s[j]).identity
}

/// What a memoizing lookup of `id` does to a cache: after it the type is
/// there; a cached type is returned as it is, else exactly one is added.
pub open spec fn object_lookup_post(
    before: Seq<ObjectType>,
    after: Seq<ObjectType>,
    id: ObjectIdentity,
) -> bool {
    &&& has_object(after, id)
    &&& has_object(before, id) ==> after == before
    &&& !has_object(before, id) ==> after.len() == before.len() + 1 && after.drop_last() == before
        && after.last().identity == id
}

/// What a memoizing lookup of `id` does to a cache of input types.
pub open spec fn input_lookup_post(
    before: Seq<InputObjectType>,
    after: Seq<InputObjectType>,
    id: InputIdentity,
) -> bool {
    &&& has_input(after, id)
    &&& has_input(before, id) ==> after == before
    &&& !has_input(before, id) ==> after.len() == before.len() + 1 && after.drop_last() == before
        && after.last().identity == id
}

/// The identities of the types of a list.
pub open spec fn object_ids(s: Seq<ObjectType>) -> Set<ObjectIdentity> {
    Set::new(|id: ObjectIdentity| has_object(s, id))
}

/// The identities of the types of a list.
pub open spec fn input_ids(s: Seq<InputObjectType>) -> Set<InputIdentity> {
    Set::new(|id: InputIdentity| has_input(s, id))
}

/// An input type refers only to input types of `ins`.
pub open spec fn input_ref_within(t: InputType, ins: Set<InputIdentity>) -> bool {
    match input_ref(t) {
        Some(id) => ins.contains(id),
        None => true,
    }
}

/// A field refers only to types of `outs` and `ins`, by its type and its
/// arguments.
pub open spec fn field_within(f: FieldView, outs: Set<ObjectIdentity>, ins: Set<InputIdentity>) -> bool {
    &&& match output_ref(f.field_type) {
        Some(id) => outs.contains(id),
        None => true,
    }
    &&& forall|k: int| 0 <= k < f.arguments.len() ==> input_ref_within(#[trigger] f.arguments[k].arg_type, ins)
}

pub open spec fn fields_within(fs: Seq<FieldView>, outs: Set<ObjectIdentity>, ins: Set<InputIdentity>) -> bool {
    forall|k: int| 0 <= k < fs.len() ==> field_within(#[trigger] fs[k], outs, ins)
}

pub open spec fn input_fields_within(fs: Seq<InputFieldView>, ins: Set<InputIdentity>) -> bool {
    forall|k: int| 0 <= k < fs.len() ==> input_ref_within(#[trigger] fs[k].field_type, ins)
}

/// What refers only to types of some sets refers only to types of larger ones.
pub proof fn lemma_fields_within_grow(
    fs: Seq<FieldView>,
    o1: Set<ObjectIdentity>,
    i1: Set<InputIdentity>,
    o2: Set<ObjectIdentity>,
    i2: Set<InputIdentity>,
)
    requires
        fields_within(fs, o1, i1),
        o1.subset_of(o2),
        i1.subset_of(i2),
    ensures
        fields_within(fs, o2, i2),
{
    assert forall|k: int| 0 <= k < fs.len() implies field_within(#[trigger] fs[k], o2, i2) by {
        assert(field_within(fs[k], o1, i1));
        assert forall|a: int| 0 <= a < fs[k].arguments.len() implies input_ref_within(
            #[trigger] fs[k].arguments[a].arg_type,
            i2,
        ) by {
            assert(input_ref_within(fs[k].arguments[a].arg_type, i1));
        }
    }
}

/// `after` is `before` with possibly more appended.
pub open spec fn extends<T>(before: Seq<T>, after: Seq<T>) -> bool {
    &&& before.len() <= after.len()
    &&& forall|i: int| 0 <= i < before.len() ==> after[i] == #[trigger] before[i]
}

/// A memoizing lookup only appends.
pub proof fn lemma_object_lookup_extends(before: Seq<ObjectType>, after: Seq<ObjectType>, id: ObjectIdentity)
    requires
        object_lookup_post(before, after, id),
    ensures
        extends(before, after),
{
    if !has_object(before, id) {
        assert forall|i: int| 0 <= i < before.len() implies after[i] == #[trigger] before[i] by {
            assert(after.drop_last()[i] == after[i]);
        }
    }
}

/// A memoizing lookup only appends.
pub proof fn lemma_input_lookup_extends(before: Seq<InputObjectType>, after: Seq<InputObjectType>, id: InputIdentity)
    requires
        input_lookup_post(before, after, id),
    ensures
        extends(before, after),
{
    if !has_input(before, id) {
        assert forall|i: int| 0 <= i < before.len() implies after[i] == #[trigger] before[i] by {
            assert(after.drop_last()[i] == after[i]);
        }
    }
}

/// Lists only grow by appending: what was found stays found.
pub proof fn lemma_objects_grow(s1: Seq<ObjectType>, s2: Seq<ObjectType>)
    requires
        extends(s1, s2),
    ensures
        forall|id: ObjectIdentity| has_object(s1, id) ==> #[trigger] has_object(s2, id),
        object_ids(s1).subset_of(object_ids(s2)),
{
    assert forall|id: ObjectIdentity| has_object(s1, id) implies #[trigger] has_object(s2, id) by {
        let i = choose|i: int| 0 <= i < s1.len() && (#[trigger] s1[i]).identity == id;
        assert(s2[i] == s1[i]);
        assert(0 <= i < s2.len() && s2[i].identity == id);
    }
}

/// Lists only grow by appending: what was found stays found.
pub proof fn lemma_inputs_grow(s1: Seq<InputObjectType>, s2: Seq<InputObjectType>)
    requires
        extends(s1, s2),
    ensures
        forall|id: InputIdentity| has_input(s1, id) ==> #[trigger] has_input(s2, id),
        input_ids(s1).subset_of(input_ids(s2)),
{
    assert forall|id: InputIdentity| has_input(s1, id) implies #[trigger] has_input(s2, id) by {
        let i = choose|i: int| 0 <= i < s1.len() && (#[trigger] s1[i]).identity == id;
        assert(s2[i] == s1[i]);
        assert(0 <= i < s2.len() && s2[i].identity == id);
    }
}

pub fn push_input_field(out: &mut Vec<InputField>, f: InputField)
    ensures
        input_field_views(final(out)@) == input_field_views(old(out)@).push(f@),
{
    out.push(f);
    assert(input_field_views(out@) =~= input_field_views(old(out)@).push(f@));
}

pub fn push_argument(out: &mut Vec<Argument>, a: Argument)
    ensures
        argument_views(final(out)@) == argument_views(old(out)@).push(a@),
{
    out.push(a);
    assert(argument_views(out@) =~= argument_views(old(out)@).push(a@));
}

pub fn push_field(out: &mut Vec<Field>, f: Field)
    ensures
        field_views(final(out)@) == field_views(old(out)@).push(f@),
{
    out.push(f);
    assert(field_views(out@) =~= field_views(old(out)@).push(f@));
}


/// Every type that a root or a listed type refers to is listed, and no
/// identity is listed twice: each type reachable from the roots appears
/// exactly once.
pub open spec fn complete_lists(
    query: OutputType,
    mutation: OutputType,
    outs: Seq<ObjectType>,
    ins: Seq<InputObjectType>,
) -> bool {
    &&& distinct_objects(outs)
    &&& distinct_inputs(ins)
    &&& output_ref(query) matches Some(q) && has_object(outs, q)
    &&& output_ref(mutation) matches Some(m) && has_object(outs, m)
    &&& forall|i: int|
        0 <= i < outs.len() ==> fields_within(
            (#[trigger] outs[i])@.fields,
            object_ids(outs),
            input_ids(ins),
        )
    &&& forall|i: int| 0 <= i < ins.len() ==> input_fields_within((#[trigger] ins[i])@.fields, input_ids(ins))
}

/// The finished schema: the two root types and flat lists of every object
/// type and input type.
pub struct QuerySchema {
    pub query: OutputType,
    pub mutation: OutputType,
    pub input_object_types: Vec<InputObjectType>,
    pub output_object_types: Vec<ObjectType>,
}

impl QuerySchema {
    pub fn new(
        query: OutputType,
        mutation: OutputType,
        input_object_types: Vec<InputObjectType>,
        output_object_types: Vec<ObjectType>,
    ) -> (r: Self)
        ensures
            r.query == query,
            r.mutation == mutation,
            r.input_object_types@ == input_object_types@,
            r.output_object_types@ == output_object_types@,
    {
        QuerySchema { query, mutation, input_object_types, output_object_types }
    }

    /// Every type reachable from the roots is listed exactly once.
    pub open spec fn is_complete(&self) -> bool {
        complete_lists(
            self.query,
            self.mutation,
            self.output_object_types@,
            self.input_object_types@,
        )
    }

    /// The position of the object type with identity `id`, if listed.
    pub fn find_output_type(&self, id: ObjectIdentity) -> (r: Option<usize>)
        ensures
            r is Some <==> has_object(self.output_object_types@, id),
            r matches Some(i) ==> i < self.output_object_types@.len()
                && self.output_object_types@[i as int].identity == id,
    {
        let mut i: usize = 0;
        while i < self.output_object_types.len()
            invariant
                i <= self.output_object_types@.len(),
                forall|j: int| 0 <= j < i ==> (#[trigger] self.output_object_types@[j]).identity != id,
            decreases self.output_object_types@.len() - i,
        {
            if self.output_object_types[i].identity == id {
                return Some(i);
            }
            i = i + 1;
        }
        None
    }

    /// The position of the input type with identity `id`, if listed.
    pub fn find_input_type(&self, id: InputIdentity) -> (r: Option<usize>)
        ensures
            r is Some <==> has_input(self.input_object_types@, id),
            r matches Some(i) ==> i < self.input_object_types@.len()
                && self.input_object_types@[i as int].identity == id,
    {
        let mut i: usize = 0;
        while i < self.input_object_types.len()
            invariant
                i <= self.input_object_types@.len(),
                forall|j: int| 0 <= j < i ==> (#[trigger] self.input_object_types@[j]).identity != id,
            decreases self.input_object_types@.len() - i,
        {
            if self.input_object_types[i].identity == id {
                return Some(i);
            }
            i = i + 1;
        }
        None
    }
}

} // verus!
