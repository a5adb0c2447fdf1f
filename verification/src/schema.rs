//! The compiler's input: type definitions of a validated schema and the
//! catalog that holds the schema's namespace, object field lists and
//! execution target.

use crate::text::str_eq;
use vstd::prelude::*;

verus! {

/// The runtime environment that an entity's bindings are compiled for.
#[derive(Clone, Copy, Debug, PartialEq, Eq, Hash, Structural)]
pub enum ExecutionTarget {
    /// An embedded environment whose host owns persistence.
    Sandboxed,
    /// The host itself, where entities load and save through a handle.
    Native,
}

/// One declared field: its name, the name of its scalar and whether it may
/// be absent.
#[derive(Debug, PartialEq, Eq)]
pub struct FieldDefinition {
    pub name: String,
    pub scalar: String,
    pub nullable: bool,
}

/// What a [`FieldDefinition`] holds.
pub struct FieldDefinitionView {
    pub name: Seq<char>,
    pub scalar: Seq<char>,
    pub nullable: bool,
}

impl DeepView for FieldDefinition {
    type V = FieldDefinitionView;

    open spec fn deep_view(&self) -> FieldDefinitionView {
        FieldDefinitionView { name: self.name@, scalar: self.scalar@, nullable: self.nullable }
    }
}

impl View for FieldDefinition {
    type V = FieldDefinitionView;

    open spec fn view(&self) -> FieldDefinitionView {
        self.deep_view()
    }
}

impl Clone for FieldDefinition {
    fn clone(&self) -> (copy: FieldDefinition)
        ensures
            copy@ == self@,
    {
        FieldDefinition {
            name: self.name.clone(),
            scalar: self.scalar.clone(),
            nullable: self.nullable,
        }
    }
}

/// The payload of a type definition, by kind.
#[derive(Debug, PartialEq, Eq)]
pub enum TypeKind {
    /// An object with its fields in declaration order.
    Object(Vec<FieldDefinition>),
    /// A union with the names of its member objects in declaration order.
    Union(Vec<String>),
    /// An enum with its variant names in declaration order.
    Enum(Vec<String>),
}

/// What a [`TypeKind`] holds.
pub enum TypeKindView {
    Object(Seq<FieldDefinitionView>),
    Union(Seq<Seq<char>>),
    Enum(Seq<Seq<char>>),
}

impl DeepView for TypeKind {
    type V = TypeKindView;

    open spec fn deep_view(&self) -> TypeKindView {
        match self {
            TypeKind::Object(fields) => TypeKindView::Object(fields.deep_view()),
            TypeKind::Union(members) => TypeKindView::Union(members.deep_view()),
            TypeKind::Enum(variants) => TypeKindView::Enum(variants.deep_view()),
        }
    }
}

/// One type definition of the schema.
#[derive(Debug, PartialEq, Eq)]
pub struct TypeDefinition {
    pub name: String,
    pub kind: TypeKind,
}

/// What a [`TypeDefinition`] holds.
pub struct TypeDefinitionView {
    pub name: Seq<char>,
    pub kind: TypeKindView,
}

impl DeepView for TypeDefinition {
    type V = TypeDefinitionView;

    open spec fn deep_view(&self) -> TypeDefinitionView {
        TypeDefinitionView { name: self.name@, kind: self.kind.deep_view() }
    }
}

impl View for TypeDefinition {
    type V = TypeDefinitionView;

    open spec fn view(&self) -> TypeDefinitionView {
        self.deep_view()
    }
}

/// The fields of one object of the schema.
#[derive(Debug, PartialEq, Eq)]
pub struct ObjectFields {
    pub name: String,
    pub fields: Vec<FieldDefinition>,
}

/// What an [`ObjectFields`] holds.
pub struct ObjectFieldsView {
    pub name: Seq<char>,
    pub fields: Seq<FieldDefinitionView>,
}

impl DeepView for ObjectFields {
    type V = ObjectFieldsView;

    open spec fn deep_view(&self) -> ObjectFieldsView {
        ObjectFieldsView { name: self.name@, fields: self.fields.deep_view() }
    }
}

/// What the schema as a whole says: its namespace, the fields of each of its
/// objects, and the execution target it is compiled for.
#[derive(Debug, PartialEq, Eq)]
pub struct SchemaCatalog {
    pub namespace: String,
    pub objects: Vec<ObjectFields>,
    pub target: ExecutionTarget,
}

/// What a [`SchemaCatalog`] holds.
pub struct SchemaCatalogView {
    pub namespace: Seq<char>,
    pub objects: Seq<ObjectFieldsView>,
    pub target: ExecutionTarget,
}

impl DeepView for SchemaCatalog {
    type V = SchemaCatalogView;

    open spec fn deep_view(&self) -> SchemaCatalogView {
        SchemaCatalogView {
            namespace: self.namespace@,
            objects: self.objects.deep_view(),
            target: self.target,
        }
    }
}

impl View for SchemaCatalog {
    type V = SchemaCatalogView;

    open spec fn view(&self) -> SchemaCatalogView {
        self.deep_view()
    }
}

impl SchemaCatalogView {
    /// Whether `index` is the first entry of the catalog under `name`.
    pub open spec fn is_first_entry(self, name: Seq<char>, index: int) -> bool {
        &&& 0 <= index < self.objects.len()
        &&& self.objects[index].name == name
        &&& forall|j: int| 0 <= j < index ==> (#[trigger] self.objects[j]).name != name
    }

    /// Whether the catalog has an object under `name`.
    pub open spec fn has_object(self, name: Seq<char>) -> bool {
        exists|i: int| 0 <= i < self.objects.len() && (#[trigger] self.objects[i]).name == name
    }

    /// The fields of the first object under `name`.
    pub open spec fn fields_of(self, name: Seq<char>) -> Seq<FieldDefinitionView> {
        self.objects[choose|i: int| self.is_first_entry(name, i)].fields
    }
}

impl SchemaCatalog {
    /// The fields of the first object that the catalog holds under `name`.
    pub fn lookup(&self, name: &str) -> (found: Option<&Vec<FieldDefinition>>)
        ensures
            match found {
                Some(fields) => self@.has_object(name@) && fields.deep_view() == self@.fields_of(
                    name@,
                ),
                None => !self@.has_object(name@),
            },
    {
        let mut i: usize = 0;
        while i < self.objects.len()
            invariant
                i <= self.objects.len(),
                forall|j: int| 0 <= j < i ==> (#[trigger] self@.objects[j]).name != name@,
            decreases self.objects.len() - i,
        {
            if str_eq(self.objects[i].name.as_str(), name) {
                proof {
                    assert(self@.is_first_entry(name@, i as int));
                }
                return Some(&self.objects[i].fields);
            }
            i += 1;
        }
        None
    }
}

} // verus!
