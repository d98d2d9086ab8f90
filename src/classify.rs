use vstd::prelude::*;
use crate::model::{Classification, Directive, FieldFault, TypeShape};

verus! {

/// The classification of a field with directives `ds` and a type of shape `shape`.
pub open spec fn classification_of(ds: Seq<Directive>, shape: TypeShape) -> Result<Classification, FieldFault> {
    let skip_default = ds.contains(Directive::SkipDefaultInputArg);
    let skip_prompt = ds.contains(Directive::SkipInteractiveInput);
    let repeated = ds.contains(Directive::LongVecMultipleOpt);
    let long = ds.contains(Directive::Long);
    if ds.contains(Directive::NamedArg) {
        if repeated || long || skip_default || skip_prompt {
            Err(FieldFault::Conflict)
        } else {
            Ok(Classification::NamedSubcommand)
        }
    } else if repeated {
        if skip_default || skip_prompt {
            Err(FieldFault::Conflict)
        } else if shape != TypeShape::Sequence {
            Err(FieldFault::NotSequence)
        } else {
            Ok(Classification::RepeatedMultiOpt)
        }
    } else if long && shape == TypeShape::Bool {
        Ok(Classification::Flag)
    } else if skip_default && skip_prompt {
        Err(FieldFault::Conflict)
    } else if skip_prompt {
        Ok(Classification::SkipNoPrompt)
    } else if skip_default {
        Ok(Classification::SkipDefault)
    } else {
        Ok(Classification::Plain)
    }
}

/// Whether a field of this classification gets a prompt function of its own.
pub open spec fn is_prompted(c: Classification) -> bool {
    c == Classification::Plain || c == Classification::SkipDefault
}

/// Whether `d` occurs in `ds`.
pub fn has_directive(ds: &Vec<Directive>, d: Directive) -> (r: bool)
    ensures
        r == ds@.contains(d),
{
    let mut i: usize = 0;
    while i < ds.len()
        invariant
            i <= ds@.len(),
            forall|k: int| 0 <= k < i ==> ds@[k] != d,
        decreases ds@.len() - i,
    {
        if ds[i] == d {
            return true;
        }
        i = i + 1;
    }
    false
}

/// Classifies a field by its directives and the shape of its type.
pub fn classify(ds: &Vec<Directive>, shape: TypeShape) -> (r: Result<Classification, FieldFault>)
    ensures
        r == classification_of(ds@, shape),
{
    let skip_default = has_directive(ds, Directive::SkipDefaultInputArg);
    let skip_prompt = has_directive(ds, Directive::SkipInteractiveInput);
    let repeated = has_directive(ds, Directive::LongVecMultipleOpt);
    let long = has_directive(ds, Directive::Long);
    if has_directive(ds, Directive::NamedArg) {
        if repeated || long || skip_default || skip_prompt {
            Err(FieldFault::Conflict)
        } else {
            Ok(Classification::NamedSubcommand)
        }
    } else if repeated {
        if skip_default || skip_prompt {
            Err(FieldFault::Conflict)
        } else if shape != TypeShape::Sequence {
            Err(FieldFault::NotSequence)
        } else {
            Ok(Classification::RepeatedMultiOpt)
        }
    } else if long && shape == TypeShape::Bool {
        Ok(Classification::Flag)
    } else if skip_default && skip_prompt {
        Err(FieldFault::Conflict)
    } else if skip_prompt {
        Ok(Classification::SkipNoPrompt)
    } else if skip_default {
        Ok(Classification::SkipDefault)
    } else {
        Ok(Classification::Plain)
    }
}

} // verus!
