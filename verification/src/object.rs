//! Entity descriptors: what one object or union compiles to, and the pass
//! over its fields that builds it.

use crate::decode::{is_reserved_type_name, reserved_type_name, Decoder};
use crate::digest::{type_id, type_id_of, TYPE_ID_RANGE};
use crate::error::{CompileError, CompileErrorView};
use crate::field_set::{merge_members, merged, synthesized};
use crate::field::{
    id_name, is_id_name, translate, translated, unknown_scalar, FieldDescriptor,
    FieldDescriptorView, RowEncoder, RowExtractor,
};
use crate::schema::{
    ExecutionTarget, FieldDefinition, FieldDefinitionView, SchemaCatalog, SchemaCatalogView,
    TypeDefinition, TypeDefinitionView, TypeKind, TypeKindView,
};
use vstd::prelude::*;

verus! {

/// Whether one of the fields is the reserved `id` field.
pub open spec fn has_id(fields: Seq<FieldDescriptorView>) -> bool {
    exists|i: int| 0 <= i < fields.len() && (#[trigger] fields[i]).name == id_name()
}

/// The fields that identifier derivation hashes: every field except `id`,
/// in declaration order.
pub open spec fn hashed_fields(fields: Seq<FieldDescriptorView>) -> Seq<FieldDescriptorView> {
    fields.filter(|f: FieldDescriptorView| f.name != id_name())
}

/// The names of fields, in their order.
pub open spec fn field_names(fields: Seq<FieldDescriptorView>) -> Seq<Seq<char>> {
    fields.map_values(|f: FieldDescriptorView| f.name)
}

/// The identifier spec of a field list: where the list has an `id` field,
/// the names of the hashed fields; none otherwise.
pub open spec fn identifier_spec_of(fields: Seq<FieldDescriptorView>) -> Option<Seq<Seq<char>>> {
    if has_id(fields) {
        Some(field_names(hashed_fields(fields)))
    } else {
        None
    }
}

/// The extractors of a field list. A row is consumed from its end, so the
/// extractor of the last slot comes first.
pub open spec fn extractors_of(fields: Seq<FieldDescriptorView>) -> Seq<RowExtractor> {
    Seq::new(
        fields.len(),
        |k: int| fields[fields.len() - 1 - k].extractor((fields.len() - 1 - k) as usize),
    )
}

/// The encoders of a field list, in declaration order.
pub open spec fn encoders_of(fields: Seq<FieldDescriptorView>) -> Seq<RowEncoder> {
    Seq::new(fields.len(), |k: int| fields[k].encoder(k as usize))
}

/// What an entity descriptor holds.
pub struct EntityDescriptorView {
    /// The name of the object or union.
    pub name: Seq<char>,
    /// The persistent type tag.
    pub type_id: int,
    /// The typed fields in declaration order, which is the layout of a
    /// record and the order of a row.
    pub fields: Seq<FieldDescriptorView>,
    /// One extractor per field, last slot first.
    pub extractors: Seq<RowExtractor>,
    /// One encoder per field, in declaration order.
    pub encoders: Seq<RowEncoder>,
    /// The names of the fields hashed into a derived identifier.
    pub identifier_spec: Option<Seq<Seq<char>>>,
    /// The environment that the bindings are compiled for.
    pub execution_target: ExecutionTarget,
}

/// The descriptor of the entity `name` with the given tag, fields and target.
pub open spec fn entity_of(
    name: Seq<char>,
    type_id: int,
    fields: Seq<FieldDescriptorView>,
    target: ExecutionTarget,
) -> EntityDescriptorView {
    EntityDescriptorView {
        name,
        type_id,
        fields,
        extractors: extractors_of(fields),
        encoders: encoders_of(fields),
        identifier_spec: identifier_spec_of(fields),
        execution_target: target,
    }
}

impl EntityDescriptorView {
    /// What holds of every descriptor: the tag has 63 bits, the extractors,
    /// encoders and identifier spec are those of the fields, and an `id`
    /// field is a required identifier.
    pub open spec fn wf(self) -> bool {
        &&& 0 <= self.type_id < TYPE_ID_RANGE
        &&& self.fields.len() <= usize::MAX
        &&& self.extractors == extractors_of(self.fields)
        &&& self.encoders == encoders_of(self.fields)
        &&& self.identifier_spec == identifier_spec_of(self.fields)
        &&& forall|i: int| 0 <= i < self.fields.len() ==> (#[trigger] self.fields[i]).id_rule()
    }
}

/// Whether every declared field translates to a typed field.
pub open spec fn all_known(definitions: Seq<FieldDefinitionView>) -> bool {
    forall|i: int| 0 <= i < definitions.len() ==> translated(#[trigger] definitions[i]) is Some
}

/// Whether `index` is the first declared field whose scalar is not registered.
pub open spec fn is_first_unknown(definitions: Seq<FieldDefinitionView>, index: int) -> bool {
    &&& 0 <= index < definitions.len()
    &&& translated(definitions[index]) is None
    &&& forall|j: int| 0 <= j < index ==> translated(#[trigger] definitions[j]) is Some
}

/// The typed fields of declared fields, one for one.
pub open spec fn typed_fields(definitions: Seq<FieldDefinitionView>) -> Seq<FieldDescriptorView> {
    Seq::new(definitions.len(), |i: int| translated(definitions[i])->0)
}

/// The outcome owed for building the entity `name` from declared fields:
/// the descriptor of their typed fields, or the error of the first field
/// whose scalar is not registered.
pub open spec fn builds(
    name: Seq<char>,
    definitions: Seq<FieldDefinitionView>,
    namespace: Seq<char>,
    target: ExecutionTarget,
    outcome: Result<ObjectDecoder, CompileError>,
) -> bool {
    match outcome {
        Ok(decoder) => all_known(definitions) && decoder@ == entity_of(
            name,
            type_id_of(namespace, name),
            typed_fields(definitions),
            target,
        ),
        Err(e) => exists|i: int|
            is_first_unknown(definitions, i) && e@ == unknown_scalar(name, #[trigger] definitions[i]),
    }
}

/// The descriptor of one compiled object or union.
#[derive(Debug, PartialEq, Eq)]
pub struct ObjectDecoder {
    /// The name of the object or union.
    ident: String,
    /// The typed fields, in declaration order.
    struct_fields: Vec<FieldDescriptor>,
    /// The extractors, last slot first.
    field_extractors: Vec<RowExtractor>,
    /// The encoders, in declaration order.
    to_row: Vec<RowEncoder>,
    /// The names of the fields hashed into a derived identifier.
    impl_new_params: Option<Vec<String>>,
    /// The environment that the bindings are compiled for.
    exec_source: ExecutionTarget,
    /// The persistent type tag.
    type_id: i64,
}

impl View for ObjectDecoder {
    type V = EntityDescriptorView;

    closed spec fn view(&self) -> EntityDescriptorView {
        EntityDescriptorView {
            name: self.ident@,
            type_id: self.type_id as int,
            fields: self.struct_fields.deep_view(),
            extractors: self.field_extractors@,
            encoders: self.to_row@,
            identifier_spec: match self.impl_new_params {
                Some(names) => Some(names.deep_view()),
                None => None,
            },
            execution_target: self.exec_source,
        }
    }
}

impl ObjectDecoder {
    #[verifier::type_invariant]
    spec fn well_formed(self) -> bool {
        self@.wf()
    }

    /// The name of the object or union.
    pub fn name(&self) -> (name: &str)
        ensures
            name@ == self@.name,
    {
        self.ident.as_str()
    }

    /// The persistent type tag.
    pub fn type_id(&self) -> (id: i64)
        ensures
            id == self@.type_id,
            0 <= id,
    {
        proof {
            use_type_invariant(self);
        }
        self.type_id
    }

    /// The typed fields, in declaration order.
    pub fn fields(&self) -> (fields: &Vec<FieldDescriptor>)
        ensures
            fields.deep_view() == self@.fields,
            self@.wf(),
    {
        proof {
            use_type_invariant(self);
        }
        &self.struct_fields
    }

    /// The row extractors, last slot first.
    pub fn extractors(&self) -> (extractors: &Vec<RowExtractor>)
        ensures
            extractors@ == self@.extractors,
    {
        &self.field_extractors
    }

    /// The row encoders, in declaration order.
    pub fn encoders(&self) -> (encoders: &Vec<RowEncoder>)
        ensures
            encoders@ == self@.encoders,
    {
        &self.to_row
    }

    /// The names of the fields hashed into a derived identifier, where the
    /// entity has an `id` field.
    pub fn identifier_spec(&self) -> (names: Option<&Vec<String>>)
        ensures
            match names {
                Some(names) => self@.identifier_spec == Some(names.deep_view()),
                None => self@.identifier_spec is None,
            },
    {
        self.impl_new_params.as_ref()
    }

    /// The environment that the bindings are compiled for.
    pub fn execution_target(&self) -> (target: ExecutionTarget)
        ensures
            target == self@.execution_target,
    {
        self.exec_source
    }
}

impl Default for ObjectDecoder {
    /// A descriptor without fields, for a sandboxed target, under the
    /// largest type tag.
    fn default() -> (decoder: ObjectDecoder)
        ensures
            decoder@ == entity_of(
                "ObjectDecoder"@,
                i64::MAX as int,
                Seq::empty(),
                ExecutionTarget::Sandboxed,
            ),
    {
        let struct_fields: Vec<FieldDescriptor> = Vec::new();
        let field_extractors: Vec<RowExtractor> = Vec::new();
        let to_row: Vec<RowEncoder> = Vec::new();
        proof {
            assert(struct_fields.deep_view() =~= Seq::empty());
            assert(field_extractors@ =~= extractors_of(Seq::empty()));
            assert(to_row@ =~= encoders_of(Seq::empty()));
        }
        ObjectDecoder {
            ident: String::from_str("ObjectDecoder"),
            struct_fields,
            field_extractors,
            to_row,
            impl_new_params: None,
            exec_source: ExecutionTarget::Sandboxed,
            type_id: i64::MAX,
        }
    }
}

/// A descriptor put together from a tag of 63 bits and fields that keep the
/// `id` rule is well formed.
pub proof fn lemma_entity_of_wf(
    name: Seq<char>,
    type_id: int,
    fields: Seq<FieldDescriptorView>,
    target: ExecutionTarget,
)
    requires
        0 <= type_id < TYPE_ID_RANGE,
        fields.len() <= usize::MAX,
        forall|i: int| 0 <= i < fields.len() ==> (#[trigger] fields[i]).id_rule(),
    ensures
        entity_of(name, type_id, fields, target).wf(),
{
}

/// Typed fields keep the names of the fields they were declared as, so
/// declared fields of distinct names become typed fields of distinct names.
pub proof fn lemma_typed_fields_keep_names(definitions: Seq<FieldDefinitionView>)
    requires
        all_known(definitions),
    ensures
        typed_fields(definitions).len() == definitions.len(),
        forall|i: int|
            0 <= i < definitions.len() ==> (#[trigger] typed_fields(definitions)[i]).name
                == definitions[i].name,
        forall|i: int|
            0 <= i < definitions.len() ==> (#[trigger] typed_fields(definitions)[i]).id_rule(),
{
}

/// The hashed fields are the fields other than `id`: none of them is `id`,
/// each of them is a field, and every field other than `id` is among them.
pub proof fn lemma_hashed_fields_are_the_others(fields: Seq<FieldDescriptorView>)
    ensures
        hashed_fields(fields).len() <= fields.len(),
        forall|k: int|
            0 <= k < hashed_fields(fields).len() ==> (#[trigger] hashed_fields(fields)[k]).name
                != id_name() && fields.contains(hashed_fields(fields)[k]),
        forall|i: int|
            0 <= i < fields.len() && (#[trigger] fields[i]).name != id_name() ==> hashed_fields(
                fields,
            ).contains(fields[i]),
{
    let others = |f: FieldDescriptorView| f.name != id_name();
    assert forall|k: int| 0 <= k < hashed_fields(fields).len() implies (#[trigger] hashed_fields(
        fields,
    )[k]).name != id_name() && fields.contains(hashed_fields(fields)[k]) by {
        fields.lemma_filter_contains_rev(others, fields.filter(others)[k]);
    }
}

/// Hashed fields of a field list with one more field at its end.
proof fn lemma_hashed_fields_push(fields: Seq<FieldDescriptorView>, last: FieldDescriptorView)
    ensures
        hashed_fields(fields.push(last)) == if last.name != id_name() {
            hashed_fields(fields).push(last)
        } else {
            hashed_fields(fields)
        },
{
    reveal(Seq::filter);
    assert(fields.push(last).drop_last() =~= fields);
}

/// Builds the descriptor of the entity `name` from its declared fields in
/// one pass: each field is translated in declaration order, its typed field
/// and encoder are appended, its extractor is prepended, and every field
/// but `id` joins the identifier spec.
pub fn build_entity(name: &str, definitions: &Vec<FieldDefinition>, catalog: &SchemaCatalog) -> (outcome:
    Result<ObjectDecoder, CompileError>)
    ensures
        builds(name@, definitions.deep_view(), catalog@.namespace, catalog@.target, outcome),
{
    let ghost defs = definitions.deep_view();
    let mut struct_fields: Vec<FieldDescriptor> = Vec::new();
    let mut field_extractors: Vec<RowExtractor> = Vec::new();
    let mut to_row: Vec<RowEncoder> = Vec::new();
    let mut parameters: Vec<String> = Vec::new();
    let mut derives_id = false;
    let mut i: usize = 0;
    while i < definitions.len()
        invariant
            i <= definitions.len(),
            defs == definitions.deep_view(),
            forall|k: int| 0 <= k < i ==> translated(#[trigger] defs[k]) is Some,
            struct_fields.deep_view() == Seq::new(i as nat, |k: int| translated(defs[k])->0),
            forall|k: int|
                0 <= k < i ==> (#[trigger] struct_fields.deep_view()[k]).id_rule(),
            field_extractors@ == extractors_of(struct_fields.deep_view()),
            to_row@ == encoders_of(struct_fields.deep_view()),
            parameters.deep_view() == field_names(hashed_fields(struct_fields.deep_view())),
            derives_id == has_id(struct_fields.deep_view()),
        decreases definitions.len() - i,
    {
        let ghost before = struct_fields.deep_view();
        let definition = &definitions[i];
        match translate(name, definition, i) {
            Err(e) => {
                proof {
                    assert(is_first_unknown(defs, i as int));
                }
                return Err(e);
            },
            Ok((typed, extractor, encoder)) => {
                let ghost field = typed@;
                if is_id_name(typed.name.as_str()) {
                    derives_id = true;
                } else {
                    parameters.push(typed.name.clone());
                }
                struct_fields.push(typed);
                field_extractors.insert(0, extractor);
                to_row.push(encoder);
                proof {
                    let after = struct_fields.deep_view();
                    assert(after =~= before.push(field));
                    lemma_hashed_fields_push(before, field);
                    if field.name != id_name() {
                        assert(field_names(hashed_fields(before).push(field)) =~= field_names(
                            hashed_fields(before),
                        ).push(field.name));
                    }
                    assert(has_id(after) == (has_id(before) || field.name == id_name())) by {
                        if has_id(before) {
                            let w = choose|w: int|
                                0 <= w < before.len() && (#[trigger] before[w]).name == id_name();
                            assert(after[w] == before[w]);
                        }
                        if field.name == id_name() {
                            assert(after[i as int] == field);
                        }
                    }
                }
                i += 1;
            },
        }
    }
    let id = type_id(catalog.namespace.as_str(), name);
    let decoder = ObjectDecoder {
        ident: String::from_str(name),
        struct_fields,
        field_extractors,
        to_row,
        impl_new_params: if derives_id {
            Some(parameters)
        } else {
            None
        },
        exec_source: catalog.target,
        type_id: id,
    };
    Ok(decoder)
}

/// The error for a type whose name is reserved.
pub open spec fn disallowed(name: Seq<char>) -> CompileErrorView {
    CompileErrorView::DisallowedTypeName { in_type: name }
}

/// The error for a type definition of a kind that the builder does not build.
pub open spec fn wrong_kind(name: Seq<char>) -> CompileErrorView {
    CompileErrorView::WrongTypeKindForBuilder { in_type: name }
}

/// Whether an outcome is the given error.
pub open spec fn fails_with<T>(outcome: Result<T, CompileError>, error: CompileErrorView) -> bool {
    match outcome {
        Ok(_) => false,
        Err(e) => e@ == error,
    }
}

impl Decoder for ObjectDecoder {
    /// An object compiles to the descriptor of its declared fields, unless
    /// its name is reserved. A union compiles to the descriptor of the
    /// fields that it declares for its field set. An enum is not an entity.
    open spec fn decodes(
        typ: TypeDefinitionView,
        parsed: SchemaCatalogView,
        outcome: Result<Self, CompileError>,
    ) -> bool {
        match typ.kind {
            TypeKindView::Object(fields) => if reserved_type_name(typ.name) {
                fails_with(outcome, disallowed(typ.name))
            } else {
                builds(typ.name, fields, parsed.namespace, parsed.target, outcome)
            },
            TypeKindView::Union(members) => match merged(parsed, members, typ.name) {
                Err(e) => fails_with(outcome, e),
                Ok(set) => builds(
                    typ.name,
                    synthesized(set),
                    parsed.namespace,
                    parsed.target,
                    outcome,
                ),
            },
            TypeKindView::Enum(_) => fails_with(outcome, wrong_kind(typ.name)),
        }
    }

    fn from_typedef(typ: &TypeDefinition, parsed: &SchemaCatalog) -> (outcome: Result<
        Self,
        CompileError,
    >) {
        match &typ.kind {
            TypeKind::Object(fields) => {
                if is_reserved_type_name(typ.name.as_str()) {
                    return Err(CompileError::DisallowedTypeName { in_type: typ.name.clone() });
                }
                build_entity(typ.name.as_str(), fields, parsed)
            },
            TypeKind::Union(members) => {
                match merge_members(typ.name.as_str(), members, parsed) {
                    Err(e) => Err(e),
                    Ok(fields) => build_entity(typ.name.as_str(), &fields, parsed),
                }
            },
            TypeKind::Enum(_) => Err(
                CompileError::WrongTypeKindForBuilder { in_type: typ.name.clone() },
            ),
        }
    }
}

} // verus!
