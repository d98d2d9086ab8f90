use vstd::prelude::*;

verus! {

/// A directive attached to a field of a record.
#[derive(Clone, Copy, Debug, PartialEq, Eq, Structural)]
pub enum Directive {
    /// Give the argument a long form (`--name`); on a `bool` field it makes a flag.
    Long,
    /// The field is a sequence filled from a repeated option.
    LongVecMultipleOpt,
    /// The field is a named subcommand, resolved by its own type.
    NamedArg,
    /// The field gets a prompt function, but the caller supplies the default input.
    SkipDefaultInputArg,
    /// The field is never prompted for.
    SkipInteractiveInput,
    /// Use the documentation lines as prompt text without reformatting.
    VerbatimDocComment,
}

/// The shape of a declared type, as far as classification needs it.
#[derive(Clone, Copy, Debug, PartialEq, Eq, Structural)]
pub enum TypeShape {
    Bool,
    Sequence,
    Other,
}

/// A declared type: its source text and its shape.
#[derive(Clone, Debug, PartialEq)]
pub struct FieldType {
    pub text: String,
    pub shape: TypeShape,
}

/// A named, typed field of a record.
#[derive(Clone, Debug, PartialEq)]
pub struct Field {
    pub name: String,
    pub ty: FieldType,
    pub directives: Vec<Directive>,
    pub docs: Vec<String>,
}

/// The body of a conditional-compilation annotation.
#[derive(Clone, Debug, PartialEq)]
pub enum CfgBody {
    /// One grouped token sequence, given as its text.
    Group(String),
    /// Anything else.
    Malformed,
}

/// An annotation attached to a variant of a union.
#[derive(Clone, Debug, PartialEq)]
pub enum VariantAttr {
    Doc(String),
    Cfg(CfgBody),
    Other,
}

/// The payload shape of a variant.
#[derive(Clone, Debug, PartialEq)]
pub enum VariantShape {
    Unit,
    /// Exactly one unnamed payload, given as its type text.
    Single(String),
    /// Named fields, or more than one payload.
    Unsupported,
}

/// A variant of a union.
#[derive(Clone, Debug, PartialEq)]
pub struct Variant {
    pub name: String,
    pub shape: VariantShape,
    pub attrs: Vec<VariantAttr>,
}

/// The body of a declaration.
#[derive(Clone, Debug, PartialEq)]
pub enum Data {
    Struct(Vec<Field>),
    Enum(Vec<Variant>),
    /// A record whose fields have no names, which is not supported.
    TupleStruct,
    /// An untagged union, which is not supported.
    Union,
}

/// A declaration that generation runs on.
#[derive(Clone, Debug, PartialEq)]
pub struct DeriveInput {
    pub name: String,
    pub data: Data,
}

/// The single handling mode of a field, derived from its directives.
#[derive(Clone, Copy, Debug, PartialEq, Eq, Structural)]
pub enum Classification {
    Plain,
    SkipDefault,
    SkipNoPrompt,
    NamedSubcommand,
    Flag,
    RepeatedMultiOpt,
}

/// Why a single field cannot be classified.
#[derive(Clone, Copy, Debug, PartialEq, Eq, Structural)]
pub enum FieldFault {
    /// Directives that exclude each other.
    Conflict,
    /// A repeated option on a type that is not a sequence.
    NotSequence,
}

/// Why generation failed for a whole declaration.
#[derive(Clone, Debug, PartialEq)]
pub enum GenError {
    /// Neither a record nor a tagged union.
    UnsupportedDeclaration,
    /// The named field carries directives that exclude each other.
    ConflictingDirectives { field: String },
    /// The named field is a repeated option but not a sequence.
    NotASequence { field: String },
    /// The variant has named fields or more than one payload.
    UnsupportedVariant { variant: String },
    /// A conditional-compilation annotation of the variant is not one group.
    MalformedCfg { variant: String },
}

/// The text of a list of strings.
pub open spec fn texts(v: Seq<String>) -> Seq<Seq<char>> {
    v.map_values(|s: String| s@)
}

} // verus!
