use vstd::prelude::*;
use crate::enums::{
    enum_output, lemma_union_mirror_keeps_variants, mirrors_variant, payload_of, payload_view, source_variant_names,
    union_output_of, all_variants_ok, variant_names, UnionOutput,
};
use crate::model::{Data, DeriveInput, GenError};
use crate::names::{cli_name, cli_name_of};
use crate::structs::{all_classified, record_output_of, token_stream, RecordOutput};

verus! {

/// Everything generated for one declaration.
#[derive(Clone, Debug, PartialEq)]
pub enum Generated {
    Record(RecordOutput),
    Union(UnionOutput),
}

/// What generation yields for `input`.
pub open spec fn generated_of(r: Result<Generated, GenError>, input: DeriveInput) -> bool {
    match input.data {
        Data::Struct(fields) => match r {
            Ok(Generated::Record(o)) => record_output_of(Ok(o), input.name@, cli_name_of(input.name@), fields@),
            Ok(Generated::Union(_)) => false,
            Err(e) => record_output_of(Err(e), input.name@, cli_name_of(input.name@), fields@),
        },
        Data::Enum(vs) => match r {
            Ok(Generated::Union(o)) => union_output_of(Ok(o), input.name@, cli_name_of(input.name@), vs@),
            Ok(Generated::Record(_)) => false,
            Err(e) => union_output_of(Err(e), input.name@, cli_name_of(input.name@), vs@),
        },
        Data::TupleStruct | Data::Union => r matches Err(GenError::UnsupportedDeclaration),
    }
}

/// Whether generation succeeds on `input`.
pub open spec fn generates(input: DeriveInput) -> bool {
    match input.data {
        Data::Struct(fields) => all_classified(fields@),
        Data::Enum(vs) => all_variants_ok(vs@),
        Data::TupleStruct | Data::Union => false,
    }
}

/// Generates the companion artifacts of a record or a tagged union, or
/// fails as a whole on the first rule that the declaration breaks.
pub fn impl_interactive_clap(input: &DeriveInput) -> (r: Result<Generated, GenError>)
    ensures
        generated_of(r, *input),
        r is Ok <==> generates(*input),
{
    let cli = cli_name(&input.name);
    match &input.data {
        Data::Struct(fields) => match token_stream(&input.name, &cli, fields) {
            Ok(o) => Ok(Generated::Record(o)),
            Err(e) => Err(e),
        },
        Data::Enum(vs) => match enum_output(&input.name, &cli, vs) {
            Ok(o) => Ok(Generated::Union(o)),
            Err(e) => Err(e),
        },
        Data::TupleStruct | Data::Union => Err(GenError::UnsupportedDeclaration),
    }
}

/// A union with K supported variants generates a mirror union with exactly
/// K variants, in source order, each with its source name and with its
/// payload type mirrored; the chooser offers exactly these K names.
pub proof fn lemma_union_generation_keeps_variants(input: DeriveInput, r: Result<Generated, GenError>)
    requires
        generated_of(r, input),
        r is Ok <==> generates(input),
        input.data is Enum,
        all_variants_ok(input.data->Enum_0@),
    ensures
        r matches Ok(Generated::Union(out)) && {
            let vs = input.data->Enum_0@;
            &&& out.cli_name@ == cli_name_of(input.name@)
            &&& out.variants@.len() == vs.len()
            &&& variant_names(out.variants@) == source_variant_names(vs)
            &&& forall|i: int| 0 <= i < vs.len()
                ==> #[trigger] payload_view(out.variants@[i].payload) == payload_of(vs[i].shape)
        },
{
    let vs = input.data->Enum_0@;
    if let Ok(Generated::Union(out)) = r {
        lemma_union_mirror_keeps_variants(out, input.name@, cli_name_of(input.name@), vs);
        assert forall|i: int| 0 <= i < vs.len()
            implies #[trigger] payload_view(out.variants@[i].payload) == payload_of(vs[i].shape) by {
            assert(mirrors_variant(out.variants@[i], vs[i]));
        }
    }
}

} // verus!
