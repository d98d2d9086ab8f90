use vstd::prelude::*;
use crate::classify::{classification_of, classify, has_directive, is_prompted};
use crate::docs::{prompt_text, prompt_text_of};
use crate::model::{texts, Classification, Directive, Field, FieldFault};
use crate::names::{input_fn_name, input_fn_name_of};

verus! {

/// A generated prompt function: it asks for a value of type `ty` with
/// `text` and yields no value when the user cancels.
#[derive(Clone, Debug, PartialEq)]
pub struct PromptFn {
    pub fn_name: String,
    pub field: String,
    pub ty: String,
    pub text: String,
}

/// The prompt functions generated into the inherent impl of `target`.
#[derive(Clone, Debug, PartialEq)]
pub struct InputArgsImpl {
    pub target: String,
    pub fns: Vec<PromptFn>,
}

/// Function name, field name, type text and prompt text.
pub type PromptView = (Seq<char>, Seq<char>, Seq<char>, Seq<char>);

pub open spec fn prompt_view(p: PromptFn) -> PromptView {
    (p.fn_name@, p.field@, p.ty@, p.text@)
}

/// The classification of a field.
pub open spec fn field_class(f: Field) -> Result<Classification, FieldFault> {
    classification_of(f.directives@, f.ty.shape)
}

/// Whether a field gets a prompt function.
pub open spec fn field_prompted(f: Field) -> bool {
    field_class(f) is Ok && is_prompted(field_class(f)->Ok_0)
}

/// The prompt function of a field.
pub open spec fn prompt_of(f: Field) -> PromptView {
    (
        input_fn_name_of(f.name@),
        f.name@,
        f.ty.text@,
        prompt_text_of(
            f.name@,
            f.directives@.len() > 0 || f.docs@.len() > 0,
            texts(f.docs@),
            f.directives@.contains(Directive::VerbatimDocComment),
        ),
    )
}

/// The prompt functions of the fields, in field order.
pub open spec fn prompts_of(fields: Seq<Field>) -> Seq<PromptView>
    decreases fields.len(),
{
    if fields.len() == 0 {
        Seq::empty()
    } else if field_prompted(fields.last()) {
        prompts_of(fields.drop_last()).push(prompt_of(fields.last()))
    } else {
        prompts_of(fields.drop_last())
    }
}

pub open spec fn prompt_views(v: Seq<PromptFn>) -> Seq<PromptView> {
    v.map_values(|p: PromptFn| prompt_view(p))
}

/// One prompt function for each field classified plain or skip-default, in
/// field order.
pub fn vec_fn_input_arg(fields: &Vec<Field>) -> (r: Vec<PromptFn>)
    ensures
        prompt_views(r@) == prompts_of(fields@),
{
    let mut out: Vec<PromptFn> = Vec::new();
    let mut i: usize = 0;
    while i < fields.len()
        invariant
            i <= fields@.len(),
            prompt_views(out@) == prompts_of(fields@.take(i as int)),
        decreases fields@.len() - i,
    {
        let f = &fields[i];
        assert(fields@.take(i + 1).drop_last() =~= fields@.take(i as int));
        assert(fields@.take(i + 1).last() == *f);
        let c = classify(&f.directives, f.ty.shape);
        let wanted = match c {
            Ok(k) => k == Classification::Plain || k == Classification::SkipDefault,
            Err(_) => false,
        };
        if wanted {
            let verbatim = has_directive(&f.directives, Directive::VerbatimDocComment);
            let p = PromptFn {
                fn_name: input_fn_name(&f.name),
                field: f.name.clone(),
                ty: f.ty.text.clone(),
                text: prompt_text(&f.name, f.directives.len() > 0 || f.docs.len() > 0, &f.docs, verbatim),
            };
            out.push(p);
            assert(prompt_views(out@) =~= prompts_of(fields@.take(i as int)).push(prompt_of(*f)));
        }
        i = i + 1;
    }
    assert(fields@.take(fields@.len() as int) =~= fields@);
    out
}

/// The prompt functions of a record named `name`.
pub fn token_stream(name: &String, fields: &Vec<Field>) -> (r: InputArgsImpl)
    ensures
        r.target@ == name@,
        prompt_views(r.fns@) == prompts_of(fields@),
{
    InputArgsImpl { target: name.clone(), fns: vec_fn_input_arg(fields) }
}

/// For a record whose fields carry no directive that changes their handling
/// (so each is plain), there is exactly one prompt function per field, in
/// field order, named `input_` followed by the field's name.
pub proof fn lemma_one_prompt_per_plain_field(fields: Seq<Field>)
    requires
        forall|i: int| 0 <= i < fields.len()
            ==> #[trigger] field_class(fields[i]) == Ok::<Classification, FieldFault>(Classification::Plain),
    ensures
        prompts_of(fields) == fields.map_values(|f: Field| prompt_of(f)),
        prompts_of(fields).len() == fields.len(),
        forall|i: int| 0 <= i < fields.len() ==> (#[trigger] prompts_of(fields)[i]).0 == input_fn_name_of(fields[i].name@),
    decreases fields.len(),
{
    if fields.len() > 0 {
        let p = fields.drop_last();
        assert forall|i: int| 0 <= i < p.len() implies #[trigger] field_class(p[i])
            == Ok::<Classification, FieldFault>(Classification::Plain) by {
            assert(p[i] == fields[i]);
        }
        lemma_one_prompt_per_plain_field(p);
        assert(field_class(fields[fields.len() - 1]) == Ok::<Classification, FieldFault>(Classification::Plain));
        assert(prompts_of(fields) =~= fields.map_values(|f: Field| prompt_of(f)));
    } else {
        assert(prompts_of(fields) =~= fields.map_values(|f: Field| prompt_of(f)));
    }
}

/// Every prompt function is the prompt function of some prompted field.
pub proof fn lemma_prompt_comes_from_field(fields: Seq<Field>, k: int)
    requires
        0 <= k < prompts_of(fields).len(),
    ensures
        exists|i: int| 0 <= i < fields.len() && field_prompted(fields[i])
            && #[trigger] prompt_of(fields[i]) == prompts_of(fields)[k],
    decreases fields.len(),
{
    let p = fields.drop_last();
    if field_prompted(fields.last()) && k == prompts_of(p).len() {
        assert(prompt_of(fields[fields.len() - 1]) == prompts_of(fields)[k]);
    } else {
        lemma_prompt_comes_from_field(p, k);
        let i = choose|i: int| 0 <= i < p.len() && field_prompted(p[i]) && #[trigger] prompt_of(p[i]) == prompts_of(p)[k];
        assert(fields[i] == p[i]);
    }
}

} // verus!
