//! Enum descriptors: the variants of one enum and the two tables that map
//! a variant's text to the variant and back.

use crate::decode::Decoder;
use crate::digest::{type_id, type_id_of, TYPE_ID_RANGE};
use crate::error::{CompileError, ConversionError, ConversionErrorView};
use crate::object::{fails_with, wrong_kind};
use crate::schema::{SchemaCatalog, SchemaCatalogView, TypeDefinition, TypeDefinitionView, TypeKind, TypeKindView};
use crate::text::{join, joined, lemma_joined_injective_right, str_eq};
use vstd::prelude::*;

verus! {

/// The text of a variant: the enum's name, two colons, the variant's name.
pub open spec fn label_of(name: Seq<char>, variant: Seq<char>) -> Seq<char> {
    joined(name, "::"@, variant)
}

/// The table from each variant's text to the variant, in variant order.
pub open spec fn to_enum_table(name: Seq<char>, variants: Seq<Seq<char>>) -> Seq<
    (Seq<char>, Seq<char>),
> {
    Seq::new(variants.len(), |i: int| (label_of(name, variants[i]), variants[i]))
}

/// The table from each variant to its text, in variant order.
pub open spec fn from_enum_table(name: Seq<char>, variants: Seq<Seq<char>>) -> Seq<
    (Seq<char>, Seq<char>),
> {
    Seq::new(variants.len(), |i: int| (variants[i], label_of(name, variants[i])))
}

/// The texts of the variants, in variant order.
pub open spec fn labels_of(name: Seq<char>, variants: Seq<Seq<char>>) -> Seq<Seq<char>> {
    Seq::new(variants.len(), |i: int| label_of(name, variants[i]))
}

/// What an enum descriptor holds.
pub struct EnumDescriptorView {
    /// The name of the enum.
    pub name: Seq<char>,
    /// The names of the variants, in declaration order.
    pub variants: Seq<Seq<char>>,
    /// Pairs of a variant's text and the variant.
    pub to_enum: Seq<(Seq<char>, Seq<char>)>,
    /// Pairs of a variant and its text.
    pub from_enum: Seq<(Seq<char>, Seq<char>)>,
    /// The type tag, kept for reference: an enum is not persisted.
    pub type_id: int,
}

/// The descriptor of the enum `name` with the given variants and tag.
pub open spec fn enum_of(name: Seq<char>, variants: Seq<Seq<char>>, type_id: int) -> EnumDescriptorView {
    EnumDescriptorView {
        name,
        variants,
        to_enum: to_enum_table(name, variants),
        from_enum: from_enum_table(name, variants),
        type_id,
    }
}

impl EnumDescriptorView {
    /// What holds of every enum descriptor: the tag has 63 bits and the two
    /// tables are those of the variants.
    pub open spec fn wf(self) -> bool {
        &&& 0 <= self.type_id < TYPE_ID_RANGE
        &&& self.to_enum == to_enum_table(self.name, self.variants)
        &&& self.from_enum == from_enum_table(self.name, self.variants)
    }

    /// Whether a text is the text of one of the variants.
    pub open spec fn recognizes(self, text: Seq<char>) -> bool {
        exists|i: int|
            0 <= i < self.variants.len() && label_of(self.name, #[trigger] self.variants[i]) == text
    }

    /// The variant that a text stands for, or the error that names the text
    /// and the texts that would have been recognized.
    pub open spec fn variant_of(self, text: Seq<char>) -> Result<Seq<char>, ConversionErrorView> {
        if self.recognizes(text) {
            Ok(choose|v: Seq<char>| self.variants.contains(v) && label_of(self.name, v) == text)
        } else {
            Err(
                ConversionErrorView::UnrecognizedVariant {
                    value: text,
                    expected: labels_of(self.name, self.variants),
                },
            )
        }
    }

    /// The text of a variant, or the error that names what was handed in
    /// and the variants that the enum has.
    pub open spec fn text_of(self, variant: Seq<char>) -> Result<Seq<char>, ConversionErrorView> {
        if self.variants.contains(variant) {
            Ok(label_of(self.name, variant))
        } else {
            Err(ConversionErrorView::UnrecognizedVariant { value: variant, expected: self.variants })
        }
    }
}

/// The descriptor of one compiled enum.
#[derive(Debug, PartialEq, Eq)]
pub struct EnumDecoder {
    /// The name of the enum.
    ident: String,
    /// Pairs of a variant's text and the variant.
    to_enum: Vec<(String, String)>,
    /// Pairs of a variant and its text.
    from_enum: Vec<(String, String)>,
    /// The names of the variants, in declaration order.
    values: Vec<String>,
    /// The type tag, kept for reference.
    type_id: i64,
}

impl View for EnumDecoder {
    type V = EnumDescriptorView;

    closed spec fn view(&self) -> EnumDescriptorView {
        EnumDescriptorView {
            name: self.ident@,
            variants: self.values.deep_view(),
            to_enum: self.to_enum.deep_view(),
            from_enum: self.from_enum.deep_view(),
            type_id: self.type_id as int,
        }
    }
}

/// A text is the text of at most one variant.
pub proof fn lemma_label_names_one_variant(name: Seq<char>, first: Seq<char>, second: Seq<char>)
    requires
        label_of(name, first) == label_of(name, second),
    ensures
        first == second,
{
    lemma_joined_injective_right(name, "::"@, first, second);
}

/// The two conversions of an enum invert each other: the text of a variant
/// converts back to the variant, and the variant of a recognized text
/// converts back to the text.
pub proof fn lemma_conversions_invert(decoder: EnumDescriptorView, variant: Seq<char>, text: Seq<char>)
    ensures
        decoder.variants.contains(variant) ==> decoder.text_of(variant) is Ok && decoder.variant_of(
            decoder.text_of(variant)->Ok_0,
        ) == Ok::<Seq<char>, ConversionErrorView>(variant),
        decoder.recognizes(text) ==> decoder.variant_of(text) is Ok && decoder.text_of(
            decoder.variant_of(text)->Ok_0,
        ) == Ok::<Seq<char>, ConversionErrorView>(text),
{
    if decoder.variants.contains(variant) {
        let label = label_of(decoder.name, variant);
        let chosen = choose|v: Seq<char>|
            decoder.variants.contains(v) && label_of(decoder.name, v) == label;
        lemma_label_names_one_variant(decoder.name, chosen, variant);
    }
}

impl EnumDecoder {
    #[verifier::type_invariant]
    spec fn well_formed(self) -> bool {
        self@.wf()
    }

    /// The name of the enum.
    pub fn name(&self) -> (name: &str)
        ensures
            name@ == self@.name,
    {
        self.ident.as_str()
    }

    /// The names of the variants, in declaration order.
    pub fn variants(&self) -> (variants: &Vec<String>)
        ensures
            variants.deep_view() == self@.variants,
            self@.wf(),
    {
        proof {
            use_type_invariant(self);
        }
        &self.values
    }

    /// The type tag, kept for reference.
    pub fn type_id(&self) -> (id: i64)
        ensures
            id == self@.type_id,
            0 <= id,
    {
        proof {
            use_type_invariant(self);
        }
        self.type_id
    }

    /// The texts of the variants, in declaration order.
    pub fn labels(&self) -> (labels: Vec<String>)
        ensures
            labels.deep_view() == labels_of(self@.name, self@.variants),
    {
        proof {
            use_type_invariant(self);
        }
        let mut labels: Vec<String> = Vec::new();
        let mut i: usize = 0;
        proof {
            assert(self.to_enum.deep_view().len() == to_enum_table(self@.name, self@.variants).len());
        }
        while i < self.to_enum.len()
            invariant
                i <= self.to_enum.len(),
                self@.wf(),
                self@.to_enum == self.to_enum.deep_view(),
                self.to_enum.len() == self@.variants.len(),
                labels.deep_view() == labels_of(self@.name, self@.variants).take(i as int),
            decreases self.to_enum.len() - i,
        {
            let ghost before = labels.deep_view();
            labels.push(self.to_enum[i].0.clone());
            proof {
                assert(to_enum_table(self@.name, self@.variants)[i as int].0 == label_of(
                    self@.name,
                    self@.variants[i as int],
                ));
                assert(labels.deep_view() =~= before.push(self.to_enum[i as int].0@));
            }
            i += 1;
        }
        labels
    }

    /// Converts the text of a variant to the variant's name.
    pub fn to_enum(&self, text: &str) -> (variant: Result<String, ConversionError>)
        ensures
            match variant {
                Ok(v) => self@.variant_of(text@) == Ok::<Seq<char>, ConversionErrorView>(v@),
                Err(e) => self@.variant_of(text@) == Err::<Seq<char>, ConversionErrorView>(e@),
            },
    {
        proof {
            use_type_invariant(self);
        }
        let mut i: usize = 0;
        proof {
            assert(self.to_enum.deep_view().len() == to_enum_table(self@.name, self@.variants).len());
        }
        while i < self.to_enum.len()
            invariant
                i <= self.to_enum.len(),
                self@.wf(),
                self@.to_enum == self.to_enum.deep_view(),
                self.to_enum.len() == self@.variants.len(),
                forall|k: int|
                    0 <= k < i ==> label_of(self@.name, #[trigger] self@.variants[k]) != text@,
            decreases self.to_enum.len() - i,
        {
            assert(to_enum_table(self@.name, self@.variants)[i as int] == (
                label_of(self@.name, self@.variants[i as int]),
                self@.variants[i as int],
            ));
            if str_eq(self.to_enum[i].0.as_str(), text) {
                let found = self.to_enum[i].1.clone();
                proof {
                    let v = self@.variants[i as int];
                    let chosen = choose|c: Seq<char>|
                        self@.variants.contains(c) && label_of(self@.name, c) == text@;
                    lemma_label_names_one_variant(self@.name, chosen, v);
                }
                return Ok(found);
            }
            i += 1;
        }
        Err(ConversionError::UnrecognizedVariant { value: String::from_str(text), expected: self.labels() })
    }

    /// Converts a variant's name to the variant's text.
    pub fn from_enum(&self, variant: &str) -> (text: Result<String, ConversionError>)
        ensures
            match text {
                Ok(t) => self@.text_of(variant@) == Ok::<Seq<char>, ConversionErrorView>(t@),
                Err(e) => self@.text_of(variant@) == Err::<Seq<char>, ConversionErrorView>(e@),
            },
    {
        proof {
            use_type_invariant(self);
        }
        let mut i: usize = 0;
        proof {
            assert(self.from_enum.deep_view().len() == from_enum_table(
                self@.name,
                self@.variants,
            ).len());
        }
        while i < self.from_enum.len()
            invariant
                i <= self.from_enum.len(),
                self@.wf(),
                self@.from_enum == self.from_enum.deep_view(),
                self.from_enum.len() == self@.variants.len(),
                forall|k: int| 0 <= k < i ==> #[trigger] self@.variants[k] != variant@,
            decreases self.from_enum.len() - i,
        {
            assert(from_enum_table(self@.name, self@.variants)[i as int] == (
                self@.variants[i as int],
                label_of(self@.name, self@.variants[i as int]),
            ));
            if str_eq(self.from_enum[i].0.as_str(), variant) {
                return Ok(self.from_enum[i].1.clone());
            }
            i += 1;
        }
        let expected = self.values.clone();
        Err(ConversionError::UnrecognizedVariant { value: String::from_str(variant), expected })
    }
}

impl Decoder for EnumDecoder {
    /// An enum compiles to the descriptor of its variants; an object or a
    /// union is not an enum.
    open spec fn decodes(
        typ: TypeDefinitionView,
        parsed: SchemaCatalogView,
        outcome: Result<Self, CompileError>,
    ) -> bool {
        match typ.kind {
            TypeKindView::Enum(variants) => match outcome {
                Ok(decoder) => decoder@ == enum_of(
                    typ.name,
                    variants,
                    type_id_of(parsed.namespace, typ.name),
                ),
                Err(_) => false,
            },
            _ => fails_with(outcome, wrong_kind(typ.name)),
        }
    }

    fn from_typedef(typ: &TypeDefinition, parsed: &SchemaCatalog) -> (outcome: Result<
        Self,
        CompileError,
    >) {
        match &typ.kind {
            TypeKind::Enum(variants) => {
                let name = typ.name.as_str();
                let ghost declared = variants.deep_view();
                let mut values: Vec<String> = Vec::new();
                let mut to_enum: Vec<(String, String)> = Vec::new();
                let mut from_enum: Vec<(String, String)> = Vec::new();
                let mut i: usize = 0;
                while i < variants.len()
                    invariant
                        i <= variants.len(),
                        declared == variants.deep_view(),
                        values.deep_view() == declared.take(i as int),
                        to_enum.deep_view() == to_enum_table(name@, declared.take(i as int)),
                        from_enum.deep_view() == from_enum_table(name@, declared.take(i as int)),
                    decreases variants.len() - i,
                {
                    let ghost to_before = to_enum.deep_view();
                    let ghost from_before = from_enum.deep_view();
                    let variant = variants[i].as_str();
                    let label = join(name, "::", variant);
                    values.push(String::from_str(variant));
                    to_enum.push((label.clone(), String::from_str(variant)));
                    from_enum.push((String::from_str(variant), label));
                    proof {
                        assert(to_enum.deep_view() =~= to_before.push(
                            (label_of(name@, variant@), variant@),
                        ));
                        assert(from_enum.deep_view() =~= from_before.push(
                            (variant@, label_of(name@, variant@)),
                        ));
                    }
                    i += 1;
                }
                proof {
                    assert(declared.take(i as int) =~= declared);
                }
                let id = type_id(parsed.namespace.as_str(), name);
                Ok(EnumDecoder { ident: String::from_str(name), to_enum, from_enum, values, type_id: id })
            },
            _ => Err(CompileError::WrongTypeKindForBuilder { in_type: typ.name.clone() }),
        }
    }
}

} // verus!
