use vstd::prelude::*;
use crate::structs::{clone_lines, MirrorField, MirrorKind};

verus! {

/// The value of a field of a fully populated record.
#[derive(Clone, Debug, PartialEq)]
pub enum FieldValue {
    /// A single value, in its command-line form.
    Value(String),
    Flag(bool),
    Values(Vec<String>),
}

/// The value of a mirror member: what was given declaratively.
#[derive(Clone, Debug, PartialEq)]
pub enum CliValue {
    Optional(Option<String>),
    Flag(bool),
    Values(Vec<String>),
}

pub ghost enum ValueView {
    Value(Seq<char>),
    Flag(bool),
    Values(Seq<Seq<char>>),
}

pub ghost enum CliView {
    Optional(Option<Seq<char>>),
    Flag(bool),
    Values(Seq<Seq<char>>),
}

pub open spec fn string_views(v: Seq<String>) -> Seq<Seq<char>> {
    v.map_values(|s: String| s@)
}

pub open spec fn value_view(v: FieldValue) -> ValueView {
    match v {
        FieldValue::Value(s) => ValueView::Value(s@),
        FieldValue::Flag(b) => ValueView::Flag(b),
        FieldValue::Values(xs) => ValueView::Values(string_views(xs@)),
    }
}

pub open spec fn cli_view(c: CliValue) -> CliView {
    match c {
        CliValue::Optional(Some(s)) => CliView::Optional(Some(s@)),
        CliValue::Optional(None) => CliView::Optional(None),
        CliValue::Flag(b) => CliView::Flag(b),
        CliValue::Values(xs) => CliView::Values(string_views(xs@)),
    }
}

pub open spec fn value_views(v: Seq<FieldValue>) -> Seq<ValueView> {
    v.map_values(|x: FieldValue| value_view(x))
}

pub open spec fn cli_views(v: Seq<CliValue>) -> Seq<CliView> {
    v.map_values(|x: CliValue| cli_view(x))
}

/// Whether a value has the form that a member of kind `k` holds.
pub open spec fn fits(k: MirrorKind, v: ValueView) -> bool {
    match k {
        MirrorKind::Optional | MirrorKind::Subcommand => v is Value,
        MirrorKind::Flag => v is Flag,
        MirrorKind::Multi => v is Values,
    }
}

pub open spec fn all_fit(m: Seq<MirrorField>, v: Seq<ValueView>) -> bool {
    &&& m.len() == v.len()
    &&& forall|i: int| 0 <= i < m.len() ==> fits(m[i].kind, #[trigger] v[i])
}

/// The projection of one field value into its mirror member.
pub open spec fn project(v: ValueView) -> CliView {
    match v {
        ValueView::Value(s) => CliView::Optional(Some(s)),
        ValueView::Flag(b) => CliView::Flag(b),
        ValueView::Values(xs) => CliView::Values(xs),
    }
}

/// One field composed from its mirror member and, where that holds no
/// value, the answer of interactive resolution; `None` when the value stays
/// missing (no answer, a cancelled prompt, or a member never resolved interactively).
pub open spec fn compose(m: MirrorField, c: CliView, answer: Option<Seq<char>>) -> Option<ValueView> {
    match c {
        CliView::Optional(Some(s)) => Some(ValueView::Value(s)),
        CliView::Optional(None) => if m.interactive && answer is Some {
            Some(ValueView::Value(answer->Some_0))
        } else {
            None
        },
        CliView::Flag(b) => Some(ValueView::Flag(b)),
        CliView::Values(xs) => Some(ValueView::Values(xs)),
    }
}

pub open spec fn answer_views(a: Seq<Option<String>>) -> Seq<Option<Seq<char>>> {
    a.map_values(|x: Option<String>| match x {
        Some(s) => Some(s@),
        None => None,
    })
}

/// Every member composes to a value.
pub open spec fn composes(m: Seq<MirrorField>, c: Seq<CliView>, a: Seq<Option<Seq<char>>>) -> bool {
    forall|i: int| 0 <= i < m.len() ==> (#[trigger] compose(m[i], c[i], a[i])) is Some
}

fn clone_strings(v: &Vec<String>) -> (r: Vec<String>)
    ensures
        string_views(r@) == string_views(v@),
{
    let r = clone_lines(v);
    assert(string_views(r@) =~= string_views(v@));
    r
}

/// Projects a fully populated record onto its mirror, member for member.
pub fn to_cli_values(values: &Vec<FieldValue>) -> (r: Vec<CliValue>)
    ensures
        r@.len() == values@.len(),
        forall|i: int| 0 <= i < values@.len() ==> #[trigger] cli_view(r@[i]) == project(value_view(values@[i])),
{
    let mut out: Vec<CliValue> = Vec::new();
    let mut i: usize = 0;
    while i < values.len()
        invariant
            i <= values@.len(),
            out@.len() == i,
            forall|k: int| 0 <= k < i ==> #[trigger] cli_view(out@[k]) == project(value_view(values@[k])),
        decreases values@.len() - i,
    {
        let c = match &values[i] {
            FieldValue::Value(s) => CliValue::Optional(Some(s.clone())),
            FieldValue::Flag(b) => CliValue::Flag(*b),
            FieldValue::Values(xs) => CliValue::Values(clone_strings(xs)),
        };
        out.push(c);
        i = i + 1;
    }
    out
}

/// Composes a record from its mirror and the answers of interactive
/// resolution (one per member, used only where the mirror holds no value);
/// `None` when some value stays missing.
pub fn from_cli_values(mirror: &Vec<MirrorField>, cli: &Vec<CliValue>, answers: &Vec<Option<String>>) -> (r: Option<Vec<FieldValue>>)
    requires
        cli@.len() == mirror@.len(),
        answers@.len() == mirror@.len(),
    ensures
        r is Some <==> composes(mirror@, cli_views(cli@), answer_views(answers@)),
        r is Some ==> {
            let v = r->Some_0;
            &&& v@.len() == mirror@.len()
            &&& forall|i: int| 0 <= i < mirror@.len() ==>
                Some(#[trigger] value_view(v@[i])) == compose(mirror@[i], cli_view(cli@[i]), answer_views(answers@)[i])
        },
{
    let mut out: Vec<FieldValue> = Vec::new();
    let mut i: usize = 0;
    while i < mirror.len()
        invariant
            i <= mirror@.len(),
            cli@.len() == mirror@.len(),
            answers@.len() == mirror@.len(),
            out@.len() == i,
            forall|k: int| 0 <= k < i ==> (#[trigger] compose(mirror@[k], cli_view(cli@[k]), answer_views(answers@)[k])) is Some,
            forall|k: int| 0 <= k < i ==>
                Some(#[trigger] value_view(out@[k])) == compose(mirror@[k], cli_view(cli@[k]), answer_views(answers@)[k]),
        decreases mirror@.len() - i,
    {
        let ghost a = answer_views(answers@)[i as int];
        let v = match &cli[i] {
            CliValue::Optional(Some(s)) => FieldValue::Value(s.clone()),
            CliValue::Optional(None) => {
                match &answers[i] {
                    Some(s) if mirror[i].interactive => FieldValue::Value(s.clone()),
                    _ => {
                        assert(compose(mirror@[i as int], cli_view(cli@[i as int]), a) is None);
                        assert(cli_views(cli@)[i as int] == cli_view(cli@[i as int]));
                        assert(compose(mirror@[i as int], cli_views(cli@)[i as int], a) is None);
                        assert(!composes(mirror@, cli_views(cli@), answer_views(answers@)));
                        return None;
                    },
                }
            },
            CliValue::Flag(b) => FieldValue::Flag(*b),
            CliValue::Values(xs) => FieldValue::Values(clone_strings(xs)),
        };
        out.push(v);
        i = i + 1;
    }
    assert forall|k: int| 0 <= k < mirror@.len() implies
        (#[trigger] compose(mirror@[k], cli_views(cli@)[k], answer_views(answers@)[k])) is Some by {
        assert(cli_views(cli@)[k] == cli_view(cli@[k]));
    }
    Some(out)
}

/// Projecting a fully populated record onto its mirror and composing it
/// back, with any answers at all, gives the record again, field for field.
pub proof fn lemma_round_trip(m: Seq<MirrorField>, v: Seq<ValueView>, a: Seq<Option<Seq<char>>>)
    requires
        all_fit(m, v),
        a.len() == m.len(),
    ensures
        composes(m, v.map_values(|x: ValueView| project(x)), a),
        forall|i: int| 0 <= i < m.len() ==> #[trigger] compose(m[i], project(v[i]), a[i]) == Some(v[i]),
{
    let c = v.map_values(|x: ValueView| project(x));
    assert forall|i: int| 0 <= i < m.len() implies #[trigger] compose(m[i], c[i], a[i]) is Some by {
        assert(fits(m[i].kind, v[i]));
    }
    assert forall|i: int| 0 <= i < m.len() implies #[trigger] compose(m[i], project(v[i]), a[i]) == Some(v[i]) by {
        assert(fits(m[i].kind, v[i]));
    }
}

} // verus!
