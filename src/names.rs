use vstd::prelude::*;
use vstd::string::*;
use crate::model::TypeShape;

verus! {

/// Name of the mirror type of `name`.
pub open spec fn cli_name_of(name: Seq<char>) -> Seq<char> {
    "Cli"@ + name
}

/// Name of the prompt function of a field.
pub open spec fn input_fn_name_of(field: Seq<char>) -> Seq<char> {
    "input_"@ + field
}

/// Name of the context-scope type of a union.
pub open spec fn context_scope_name_of(name: Seq<char>) -> Seq<char> {
    "InteractiveClapContextScopeFor"@ + name
}

/// Name of the variant-tag enumeration of a union.
pub open spec fn discriminants_name_of(name: Seq<char>) -> Seq<char> {
    name + "Discriminants"@
}

pub fn cli_name(name: &String) -> (r: String)
    ensures
        r@ == cli_name_of(name@),
{
    String::from_str("Cli").concat(name.as_str())
}

pub fn input_fn_name(field: &String) -> (r: String)
    ensures
        r@ == input_fn_name_of(field@),
{
    String::from_str("input_").concat(field.as_str())
}

/// Name of the context-scope type of a record or union.
pub fn context_scope_name(name: &String) -> (r: String)
    ensures
        r@ == context_scope_name_of(name@),
{
    String::from_str("InteractiveClapContextScopeFor").concat(name.as_str())
}

/// The context-scope type name of a union and the variant-tag enumeration it
/// stands for.
pub fn context_scope_for_enum(name: &String) -> (r: (String, String))
    ensures
        r.0@ == context_scope_name_of(name@),
        r.1@ == discriminants_name_of(name@),
{
    let scope = context_scope_name(name);
    let discriminants = name.clone().concat("Discriminants");
    (scope, discriminants)
}

/// The shape of a type whose path ends in the segment `last`.
pub open spec fn shape_of_segment(last: Seq<char>) -> TypeShape {
    if last == "bool"@ {
        TypeShape::Bool
    } else if last == "Vec"@ {
        TypeShape::Sequence
    } else {
        TypeShape::Other
    }
}

/// Tells a `bool`, a `Vec` and any other type apart by the last segment of
/// the type's path.
pub fn shape_of(last: &String) -> (r: TypeShape)
    ensures
        r == shape_of_segment(last@),
{
    if *last == String::from_str("bool") {
        TypeShape::Bool
    } else if *last == String::from_str("Vec") {
        TypeShape::Sequence
    } else {
        TypeShape::Other
    }
}

/// Distinct sources give distinct prompt-function names.
pub proof fn lemma_input_fn_names_distinct(a: Seq<char>, b: Seq<char>)
    requires
        a != b,
    ensures
        input_fn_name_of(a) != input_fn_name_of(b),
{
    let p = "input_"@;
    if input_fn_name_of(a) == input_fn_name_of(b) {
        assert(a =~= input_fn_name_of(a).subrange(p.len() as int, input_fn_name_of(a).len() as int));
        assert(b =~= input_fn_name_of(b).subrange(p.len() as int, input_fn_name_of(b).len() as int));
    }
}

} // verus!
