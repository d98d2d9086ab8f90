use vstd::prelude::*;
use crate::classify::{classify, has_directive};
use crate::input_args_impl::{field_class, field_prompted, lemma_one_prompt_per_plain_field, lemma_prompt_comes_from_field, prompt_of, prompt_views, prompts_of, token_stream as input_args, InputArgsImpl};
use crate::model::{texts, Classification, Directive, Field, FieldFault, GenError};
use crate::names::{context_scope_name, context_scope_name_of, input_fn_name, input_fn_name_of, lemma_input_fn_names_distinct};

verus! {

/// How a field appears in the mirror type.
#[derive(Clone, Copy, Debug, PartialEq, Eq, Structural)]
pub enum MirrorKind {
    /// An optional value of the field's type.
    Optional,
    /// An optional subcommand, resolved by the field type's own mirror.
    Subcommand,
    /// A required `bool`, false unless given.
    Flag,
    /// The same sequence type, not optional.
    Multi,
}

/// How the from-mirror constructor fills a field.
#[derive(Clone, Debug, PartialEq)]
pub enum Fill {
    /// Takes the mirror member as it is (a flag or a repeated option).
    AsGiven,
    /// Takes the mirror value, or calls the named prompt function when it is missing.
    GivenOrPrompt(String),
    /// Takes the mirror subcommand, or resolves the field type interactively.
    GivenOrSubcommand,
    /// Takes the mirror value, or the type's default; never prompts.
    GivenOrDefault,
}

/// A member of the mirror type.
#[derive(Clone, Debug, PartialEq)]
pub struct MirrorField {
    pub name: String,
    pub ty: String,
    pub kind: MirrorKind,
    /// Carries the long-form argument attribute.
    pub long: bool,
    /// Filled interactively (by a prompt or by delegated resolution) when not given.
    pub interactive: bool,
    pub docs: Vec<String>,
    pub verbatim: bool,
    /// How the from-mirror constructor fills the field.
    pub fill: Fill,
}

/// Everything generated for a record.
#[derive(Clone, Debug, PartialEq)]
pub struct RecordOutput {
    pub name: String,
    pub cli_name: String,
    pub context_scope: String,
    pub mirror: Vec<MirrorField>,
    pub input_args: InputArgsImpl,
}

pub open spec fn mirror_kind_of(c: Classification) -> MirrorKind {
    match c {
        Classification::NamedSubcommand => MirrorKind::Subcommand,
        Classification::Flag => MirrorKind::Flag,
        Classification::RepeatedMultiOpt => MirrorKind::Multi,
        _ => MirrorKind::Optional,
    }
}

/// Whether a missing declarative value of this classification is filled interactively.
pub open spec fn is_interactive(c: Classification) -> bool {
    c == Classification::Plain || c == Classification::SkipDefault || c == Classification::NamedSubcommand
}

/// The fill with its prompt-function name as text.
pub open spec fn fill_view(f: Fill) -> (int, Seq<char>) {
    match f {
        Fill::AsGiven => (0, Seq::empty()),
        Fill::GivenOrPrompt(p) => (1, p@),
        Fill::GivenOrSubcommand => (2, Seq::empty()),
        Fill::GivenOrDefault => (3, Seq::empty()),
    }
}

/// How a field named `name`, classified `c`, is filled from the mirror.
pub open spec fn fills(fill: Fill, c: Classification, name: Seq<char>) -> bool {
    match c {
        Classification::Plain | Classification::SkipDefault => fill matches Fill::GivenOrPrompt(p) && p@ == input_fn_name_of(name),
        Classification::NamedSubcommand => fill == Fill::GivenOrSubcommand,
        Classification::SkipNoPrompt => fill == Fill::GivenOrDefault,
        Classification::Flag | Classification::RepeatedMultiOpt => fill == Fill::AsGiven,
    }
}

/// Whether the mirror member carries the long-form argument attribute: a
/// repeated option always does.
pub open spec fn is_long(ds: Seq<Directive>, c: Classification) -> bool {
    ds.contains(Directive::Long) || c == Classification::RepeatedMultiOpt
}

/// `m` is the mirror member of field `f`, classified `c`.
pub open spec fn mirrors(m: MirrorField, f: Field, c: Classification) -> bool {
    &&& m.name@ == f.name@
    &&& m.ty@ == f.ty.text@
    &&& m.kind == mirror_kind_of(c)
    &&& m.long == is_long(f.directives@, c)
    &&& m.interactive == is_interactive(c)
    &&& texts(m.docs@) == texts(f.docs@)
    &&& m.verbatim == f.directives@.contains(Directive::VerbatimDocComment)
    &&& fills(m.fill, c, f.name@)
}

/// Every field of the record can be classified.
pub open spec fn all_classified(fields: Seq<Field>) -> bool {
    forall|i: int| 0 <= i < fields.len() ==> (#[trigger] field_class(fields[i])) is Ok
}

/// `e` reports field `f`, whose classification fails.
pub open spec fn reports_field(e: GenError, f: Field) -> bool {
    match field_class(f) {
        Err(FieldFault::Conflict) => e matches GenError::ConflictingDirectives { field } && field@ == f.name@,
        Err(FieldFault::NotSequence) => e matches GenError::NotASequence { field } && field@ == f.name@,
        Ok(_) => false,
    }
}

/// `e` reports the first field whose classification fails.
pub open spec fn reports_first_fault(e: GenError, fields: Seq<Field>) -> bool {
    exists|i: int|
        0 <= i < fields.len() && all_classified(fields.take(i)) && #[trigger] reports_field(e, fields[i])
}

/// `m` is the mirror of `fields`, member for member.
pub open spec fn mirror_of(m: Seq<MirrorField>, fields: Seq<Field>) -> bool {
    &&& m.len() == fields.len()
    &&& forall|i: int| 0 <= i < fields.len() ==> mirrors(#[trigger] m[i], fields[i], field_class(fields[i])->Ok_0)
}

/// What generation yields for the record `name`, mirrored as `cli`, with `fields`.
pub open spec fn record_output_of(r: Result<RecordOutput, GenError>, name: Seq<char>, cli: Seq<char>, fields: Seq<Field>) -> bool {
    match r {
        Ok(out) => {
            &&& all_classified(fields)
            &&& out.name@ == name
            &&& out.cli_name@ == cli
            &&& out.context_scope@ == context_scope_name_of(name)
            &&& mirror_of(out.mirror@, fields)
            &&& out.input_args.target@ == name
            &&& prompt_views(out.input_args.fns@) == prompts_of(fields)
        },
        Err(e) => reports_first_fault(e, fields),
    }
}

pub(crate) fn clone_lines(v: &Vec<String>) -> (r: Vec<String>)
    ensures
        r@ == v@,
{
    let mut out: Vec<String> = Vec::new();
    let mut i: usize = 0;
    while i < v.len()
        invariant
            i <= v@.len(),
            out@ == v@.take(i as int),
        decreases v@.len() - i,
    {
        out.push(v[i].clone());
        i = i + 1;
        assert(out@ =~= v@.take(i as int));
    }
    assert(v@.take(v@.len() as int) =~= v@);
    out
}

fn mirror_kind(c: Classification) -> (r: MirrorKind)
    ensures
        r == mirror_kind_of(c),
{
    match c {
        Classification::NamedSubcommand => MirrorKind::Subcommand,
        Classification::Flag => MirrorKind::Flag,
        Classification::RepeatedMultiOpt => MirrorKind::Multi,
        _ => MirrorKind::Optional,
    }
}

fn field_error(f: &Field, fault: FieldFault) -> (e: GenError)
    requires
        field_class(*f) == Err::<Classification, FieldFault>(fault),
    ensures
        reports_field(e, *f),
{
    match fault {
        FieldFault::Conflict => GenError::ConflictingDirectives { field: f.name.clone() },
        FieldFault::NotSequence => GenError::NotASequence { field: f.name.clone() },
    }
}

/// Generates the mirror type, conversions and prompt functions of a record,
/// or reports the first field that cannot be classified.
pub fn token_stream(name: &String, cli_name: &String, fields: &Vec<Field>) -> (r: Result<RecordOutput, GenError>)
    ensures
        record_output_of(r, name@, cli_name@, fields@),
        r is Ok <==> all_classified(fields@),
{
    let mut mirror: Vec<MirrorField> = Vec::new();
    let mut i: usize = 0;
    while i < fields.len()
        invariant
            i <= fields@.len(),
            all_classified(fields@.take(i as int)),
            mirror_of(mirror@, fields@.take(i as int)),
        decreases fields@.len() - i,
    {
        let f = &fields[i];
        match classify(&f.directives, f.ty.shape) {
            Err(fault) => {
                let e = field_error(f, fault);
                assert(reports_field(e, fields@[i as int]));
                assert(!(field_class(fields@[i as int]) is Ok));
                return Err(e);
            },
            Ok(c) => {
                let fill = match c {
                    Classification::Plain | Classification::SkipDefault => Fill::GivenOrPrompt(input_fn_name(&f.name)),
                    Classification::NamedSubcommand => Fill::GivenOrSubcommand,
                    Classification::SkipNoPrompt => Fill::GivenOrDefault,
                    Classification::Flag | Classification::RepeatedMultiOpt => Fill::AsGiven,
                };
                let m = MirrorField {
                    name: f.name.clone(),
                    ty: f.ty.text.clone(),
                    kind: mirror_kind(c),
                    long: has_directive(&f.directives, Directive::Long) || c == Classification::RepeatedMultiOpt,
                    interactive: c == Classification::Plain || c == Classification::SkipDefault
                        || c == Classification::NamedSubcommand,
                    docs: clone_lines(&f.docs),
                    verbatim: has_directive(&f.directives, Directive::VerbatimDocComment),
                    fill,
                };
                mirror.push(m);
                proof {
                    let t = fields@.take(i + 1);
                    assert forall|k: int| 0 <= k < t.len() implies (#[trigger] field_class(t[k])) is Ok by {
                        if k < i {
                            assert(t[k] == fields@.take(i as int)[k]);
                        }
                    }
                    assert forall|k: int| 0 <= k < t.len() implies mirrors(#[trigger] mirror@[k], t[k], field_class(t[k])->Ok_0) by {
                        if k < i {
                            assert(t[k] == fields@.take(i as int)[k]);
                        }
                    }
                }
            },
        }
        i = i + 1;
    }
    assert(fields@.take(fields@.len() as int) =~= fields@);
    let input_args = input_args(name, fields);
    let scope = context_scope_name(name);
    Ok(RecordOutput {
        name: name.clone(),
        cli_name: cli_name.clone(),
        context_scope: scope,
        mirror,
        input_args,
    })
}

/// The fields of a record have distinct names.
pub open spec fn distinct_names(fields: Seq<Field>) -> bool {
    forall|a: int, b: int| 0 <= a < fields.len() && 0 <= b < fields.len() && a != b
        ==> #[trigger] fields[a].name@ != #[trigger] fields[b].name@
}

/// A field classified skip-no-prompt gets no prompt function, under its
/// field or under its prompt-function name, and its mirror member is not
/// filled interactively.
pub proof fn lemma_skipped_field_not_prompted(out: RecordOutput, name: Seq<char>, cli: Seq<char>, fields: Seq<Field>, j: int)
    requires
        record_output_of(Ok(out), name, cli, fields),
        distinct_names(fields),
        0 <= j < fields.len(),
        field_class(fields[j]) == Ok::<Classification, FieldFault>(Classification::SkipNoPrompt),
    ensures
        !out.mirror@[j].interactive,
        forall|k: int| 0 <= k < prompt_views(out.input_args.fns@).len() ==> {
            &&& (#[trigger] prompt_views(out.input_args.fns@)[k]).1 != fields[j].name@
            &&& prompt_views(out.input_args.fns@)[k].0 != input_fn_name_of(fields[j].name@)
        },
{
    assert(mirrors(out.mirror@[j], fields[j], field_class(fields[j])->Ok_0));
    assert forall|k: int| 0 <= k < prompt_views(out.input_args.fns@).len() implies {
        &&& (#[trigger] prompt_views(out.input_args.fns@)[k]).1 != fields[j].name@
        &&& prompt_views(out.input_args.fns@)[k].0 != input_fn_name_of(fields[j].name@)
    } by {
        lemma_prompt_comes_from_field(fields, k);
        let i = choose|i: int| 0 <= i < fields.len() && field_prompted(fields[i])
            && #[trigger] prompt_of(fields[i]) == prompts_of(fields)[k];
        assert(i != j);
        assert(fields[i].name@ != fields[j].name@);
        lemma_input_fn_names_distinct(fields[i].name@, fields[j].name@);
    }
}

/// For a record of plain fields with distinct names, the prompt functions
/// have pairwise distinct names, and the i-th one prompts for the i-th field
/// with that field's type.
pub proof fn lemma_plain_prompt_names_distinct(fields: Seq<Field>)
    requires
        distinct_names(fields),
        forall|i: int| 0 <= i < fields.len()
            ==> #[trigger] field_class(fields[i]) == Ok::<Classification, FieldFault>(Classification::Plain),
    ensures
        prompts_of(fields).len() == fields.len(),
        forall|i: int| 0 <= i < fields.len() ==> {
            &&& (#[trigger] prompts_of(fields)[i]).1 == fields[i].name@
            &&& prompts_of(fields)[i].2 == fields[i].ty.text@
        },
        forall|a: int, b: int| 0 <= a < fields.len() && 0 <= b < fields.len() && a != b
            ==> (#[trigger] prompts_of(fields)[a]).0 != (#[trigger] prompts_of(fields)[b]).0,
{
    lemma_one_prompt_per_plain_field(fields);
    assert forall|a: int, b: int| 0 <= a < fields.len() && 0 <= b < fields.len() && a != b
        implies (#[trigger] prompts_of(fields)[a]).0 != (#[trigger] prompts_of(fields)[b]).0 by {
        assert(fields[a].name@ != fields[b].name@);
        lemma_input_fn_names_distinct(fields[a].name@, fields[b].name@);
    }
}

/// Generation is a function of the declaration: two outputs for the same
/// record agree in every name, mirror member and prompt function.
pub proof fn lemma_record_output_unique(o1: RecordOutput, o2: RecordOutput, name: Seq<char>, cli: Seq<char>, fields: Seq<Field>)
    requires
        record_output_of(Ok(o1), name, cli, fields),
        record_output_of(Ok(o2), name, cli, fields),
    ensures
        o1.name@ == o2.name@,
        o1.cli_name@ == o2.cli_name@,
        o1.context_scope@ == o2.context_scope@,
        o1.input_args.target@ == o2.input_args.target@,
        prompt_views(o1.input_args.fns@) == prompt_views(o2.input_args.fns@),
        o1.mirror@.len() == o2.mirror@.len(),
        forall|i: int| 0 <= i < o1.mirror@.len() ==> {
            let (a, b) = (#[trigger] o1.mirror@[i], o2.mirror@[i]);
            &&& a.name@ == b.name@
            &&& a.ty@ == b.ty@
            &&& a.kind == b.kind
            &&& a.long == b.long
            &&& a.interactive == b.interactive
            &&& texts(a.docs@) == texts(b.docs@)
            &&& a.verbatim == b.verbatim
            &&& fill_view(a.fill) == fill_view(b.fill)
        },
{
    assert forall|i: int| 0 <= i < o1.mirror@.len() implies {
        let (a, b) = (#[trigger] o1.mirror@[i], o2.mirror@[i]);
        &&& a.name@ == b.name@
        &&& a.ty@ == b.ty@
        &&& a.kind == b.kind
        &&& a.long == b.long
        &&& a.interactive == b.interactive
        &&& texts(a.docs@) == texts(b.docs@)
        &&& a.verbatim == b.verbatim
        &&& fill_view(a.fill) == fill_view(b.fill)
    } by {
        assert(mirrors(o1.mirror@[i], fields[i], field_class(fields[i])->Ok_0));
        assert(mirrors(o2.mirror@[i], fields[i], field_class(fields[i])->Ok_0));
    }
}

} // verus!
