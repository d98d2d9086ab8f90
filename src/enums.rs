use vstd::prelude::*;
use crate::docs::{contains_text, occurs_in};
use crate::model::{texts, CfgBody, GenError, Variant, VariantAttr, VariantShape};
use crate::names::{context_scope_for_enum, context_scope_name_of, discriminants_name_of};

verus! {

/// An annotation that survives onto a mirror variant.
#[derive(Clone, Debug, PartialEq)]
pub enum KeptAttr {
    Doc(String),
    /// A feature-gated conditional-compilation annotation, with its group text.
    CfgFeature(String),
}

/// A variant of the mirror union.
#[derive(Clone, Debug, PartialEq)]
pub struct MirrorVariant {
    pub name: String,
    /// The source payload type, whose own mirror this variant carries.
    pub payload: Option<String>,
    pub attrs: Vec<KeptAttr>,
}

/// Everything generated for a union.
#[derive(Clone, Debug, PartialEq)]
pub struct UnionOutput {
    pub name: String,
    pub cli_name: String,
    pub context_scope: String,
    pub discriminants: String,
    pub variants: Vec<MirrorVariant>,
}

/// Whether the annotation is a documentation line, and its text.
pub open spec fn kept_view(k: KeptAttr) -> (bool, Seq<char>) {
    match k {
        KeptAttr::Doc(s) => (true, s@),
        KeptAttr::CfgFeature(s) => (false, s@),
    }
}

pub open spec fn kept_views(v: Seq<KeptAttr>) -> Seq<(bool, Seq<char>)> {
    v.map_values(|k: KeptAttr| kept_view(k))
}

/// Whether a conditional-compilation annotation is not one group.
pub open spec fn is_malformed_cfg(a: VariantAttr) -> bool {
    a matches VariantAttr::Cfg(CfgBody::Malformed)
}

pub open spec fn has_malformed_cfg(attrs: Seq<VariantAttr>) -> bool {
    exists|i: int| 0 <= i < attrs.len() && #[trigger] is_malformed_cfg(attrs[i])
}

/// The annotations that survive: documentation, and conditional compilation
/// whose group mentions a feature; in source order.
pub open spec fn kept_of(attrs: Seq<VariantAttr>) -> Seq<(bool, Seq<char>)>
    decreases attrs.len(),
{
    if attrs.len() == 0 {
        Seq::empty()
    } else {
        let rest = kept_of(attrs.drop_last());
        match attrs.last() {
            VariantAttr::Doc(s) => rest.push((true, s@)),
            VariantAttr::Cfg(CfgBody::Group(g)) => if occurs_in("feature"@, g@) {
                rest.push((false, g@))
            } else {
                rest
            },
            _ => rest,
        }
    }
}

/// The payload type text of a variant of a supported shape.
pub open spec fn payload_of(s: VariantShape) -> Option<Seq<char>> {
    match s {
        VariantShape::Single(t) => Some(t@),
        _ => None,
    }
}

pub open spec fn payload_view(p: Option<String>) -> Option<Seq<char>> {
    match p {
        Some(t) => Some(t@),
        None => None,
    }
}

pub open spec fn variant_ok(v: Variant) -> bool {
    !has_malformed_cfg(v.attrs@) && !(v.shape is Unsupported)
}

/// `e` reports the fault of variant `v`: a malformed annotation first, then its shape.
pub open spec fn reports_variant(e: GenError, v: Variant) -> bool {
    if has_malformed_cfg(v.attrs@) {
        e matches GenError::MalformedCfg { variant } && variant@ == v.name@
    } else if v.shape is Unsupported {
        e matches GenError::UnsupportedVariant { variant } && variant@ == v.name@
    } else {
        false
    }
}

pub open spec fn mirrors_variant(m: MirrorVariant, v: Variant) -> bool {
    &&& m.name@ == v.name@
    &&& payload_view(m.payload) == payload_of(v.shape)
    &&& kept_views(m.attrs@) == kept_of(v.attrs@)
}

pub open spec fn all_variants_ok(vs: Seq<Variant>) -> bool {
    forall|i: int| 0 <= i < vs.len() ==> variant_ok(#[trigger] vs[i])
}

pub open spec fn mirror_variants_of(m: Seq<MirrorVariant>, vs: Seq<Variant>) -> bool {
    &&& m.len() == vs.len()
    &&& forall|i: int| 0 <= i < vs.len() ==> mirrors_variant(#[trigger] m[i], vs[i])
}

/// What generation yields for the union `name`, mirrored as `cli`, with `variants`.
pub open spec fn union_output_of(r: Result<UnionOutput, GenError>, name: Seq<char>, cli: Seq<char>, vs: Seq<Variant>) -> bool {
    match r {
        Ok(out) => {
            &&& all_variants_ok(vs)
            &&& out.name@ == name
            &&& out.cli_name@ == cli
            &&& out.context_scope@ == context_scope_name_of(name)
            &&& out.discriminants@ == discriminants_name_of(name)
            &&& mirror_variants_of(out.variants@, vs)
        },
        Err(e) => exists|i: int|
            0 <= i < vs.len() && all_variants_ok(vs.take(i)) && #[trigger] reports_variant(e, vs[i]),
    }
}

/// The surviving annotations of a variant, or `None` when one of its
/// conditional-compilation annotations is not one group.
fn kept_attrs(attrs: &Vec<VariantAttr>) -> (r: Option<Vec<KeptAttr>>)
    ensures
        match r {
            Some(k) => !has_malformed_cfg(attrs@) && kept_views(k@) == kept_of(attrs@),
            None => has_malformed_cfg(attrs@),
        },
{
    let mut out: Vec<KeptAttr> = Vec::new();
    let mut i: usize = 0;
    proof {
        reveal_strlit("feature");
    }
    while i < attrs.len()
        invariant
            i <= attrs@.len(),
            !has_malformed_cfg(attrs@.take(i as int)),
            kept_views(out@) == kept_of(attrs@.take(i as int)),
        decreases attrs@.len() - i,
    {
        let ghost t = attrs@.take(i + 1);
        assert(t.drop_last() =~= attrs@.take(i as int));
        assert(t.last() == attrs@[i as int]);
        match &attrs[i] {
            VariantAttr::Doc(s) => {
                out.push(KeptAttr::Doc(s.clone()));
            },
            VariantAttr::Cfg(CfgBody::Group(g)) => {
                if contains_text(g.as_str(), "feature") {
                    out.push(KeptAttr::CfgFeature(g.clone()));
                }
            },
            VariantAttr::Cfg(CfgBody::Malformed) => {
                assert(is_malformed_cfg(attrs@[i as int]));
                return None;
            },
            VariantAttr::Other => {},
        }
        i = i + 1;
        proof {
            assert(kept_views(out@) =~= kept_of(t));
            assert forall|k: int| 0 <= k < t.len() implies !is_malformed_cfg(#[trigger] t[k]) by {
                if k < i - 1 {
                    assert(t[k] == attrs@.take(i - 1)[k]);
                }
            }
        }
    }
    assert(attrs@.take(attrs@.len() as int) =~= attrs@);
    Some(out)
}

fn mirror_variant(v: &Variant) -> (r: Result<MirrorVariant, GenError>)
    ensures
        match r {
            Ok(m) => variant_ok(*v) && mirrors_variant(m, *v),
            Err(e) => reports_variant(e, *v),
        },
{
    let attrs = match kept_attrs(&v.attrs) {
        Some(k) => k,
        None => {
            return Err(GenError::MalformedCfg { variant: v.name.clone() });
        },
    };
    let payload = match &v.shape {
        VariantShape::Unit => None,
        VariantShape::Single(t) => Some(t.clone()),
        VariantShape::Unsupported => {
            return Err(GenError::UnsupportedVariant { variant: v.name.clone() });
        },
    };
    Ok(MirrorVariant { name: v.name.clone(), payload, attrs })
}

/// Generates the mirror union of `name`: one variant per source variant, in
/// order, each carrying its payload type's mirror and its surviving
/// annotations; or reports the first variant that cannot be mirrored.
pub fn enum_output(name: &String, cli_name: &String, variants: &Vec<Variant>) -> (r: Result<UnionOutput, GenError>)
    ensures
        union_output_of(r, name@, cli_name@, variants@),
        r is Ok <==> all_variants_ok(variants@),
{
    let mut out: Vec<MirrorVariant> = Vec::new();
    let mut i: usize = 0;
    while i < variants.len()
        invariant
            i <= variants@.len(),
            all_variants_ok(variants@.take(i as int)),
            mirror_variants_of(out@, variants@.take(i as int)),
        decreases variants@.len() - i,
    {
        match mirror_variant(&variants[i]) {
            Err(e) => {
                assert(reports_variant(e, variants@[i as int]));
                return Err(e);
            },
            Ok(m) => {
                out.push(m);
                proof {
                    let t = variants@.take(i + 1);
                    assert forall|k: int| 0 <= k < t.len() implies variant_ok(#[trigger] t[k]) by {
                        if k < i {
                            assert(t[k] == variants@.take(i as int)[k]);
                        }
                    }
                    assert forall|k: int| 0 <= k < t.len() implies mirrors_variant(#[trigger] out@[k], t[k]) by {
                        if k < i {
                            assert(t[k] == variants@.take(i as int)[k]);
                        }
                    }
                }
            },
        }
        i = i + 1;
    }
    assert(variants@.take(variants@.len() as int) =~= variants@);
    let (scope, discriminants) = context_scope_for_enum(name);
    Ok(UnionOutput { name: name.clone(), cli_name: cli_name.clone(), context_scope: scope, discriminants, variants: out })
}

/// What the variant chooser does: take the variant that the declarative
/// input names, or ask the user to choose among these names.
#[derive(Clone, Debug, PartialEq)]
pub enum VariantChoice {
    Resolved(usize),
    Unresolved(Vec<String>),
}

pub open spec fn variant_names(m: Seq<MirrorVariant>) -> Seq<Seq<char>> {
    m.map_values(|v: MirrorVariant| v.name@)
}

pub open spec fn source_variant_names(vs: Seq<Variant>) -> Seq<Seq<char>> {
    vs.map_values(|v: Variant| v.name@)
}

/// Resolves at once when the declarative input names a variant (by its
/// position); otherwise offers every variant name, in order.
pub fn choose_variant(out: &UnionOutput, declared: Option<usize>) -> (r: VariantChoice)
    requires
        declared is Some ==> declared->Some_0 < out.variants@.len(),
    ensures
        match declared {
            Some(i) => r == VariantChoice::Resolved(i),
            None => r matches VariantChoice::Unresolved(names)
                && texts(names@) == variant_names(out.variants@),
        },
{
    match declared {
        Some(i) => VariantChoice::Resolved(i),
        None => {
            let mut names: Vec<String> = Vec::new();
            let mut i: usize = 0;
            while i < out.variants.len()
                invariant
                    i <= out.variants@.len(),
                    names@.len() == i,
                    texts(names@) == variant_names(out.variants@.take(i as int)),
                decreases out.variants@.len() - i,
            {
                let n = out.variants[i].name.clone();
                assert(n@ == out.variants@[i as int].name@);
                let ghost prev = names@;
                names.push(n);
                proof {
                    let t = out.variants@.take(i + 1);
                    assert forall|k: int| 0 <= k < i + 1 implies texts(names@)[k] == variant_names(t)[k] by {
                        if k < i {
                            assert(names@[k] == prev[k]);
                            assert(texts(prev)[k] == variant_names(out.variants@.take(i as int))[k]);
                            assert(t[k] == out.variants@.take(i as int)[k]);
                        }
                    }
                    assert(texts(names@) =~= variant_names(t));
                }
                i = i + 1;
            }
            assert(out.variants@.take(out.variants@.len() as int) =~= out.variants@);
            VariantChoice::Unresolved(names)
        },
    }
}

/// A union with K variants gets a mirror with K variants, with the same
/// names in the same order; so the chooser offers exactly those K names.
pub proof fn lemma_union_mirror_keeps_variants(out: UnionOutput, name: Seq<char>, cli: Seq<char>, vs: Seq<Variant>)
    requires
        union_output_of(Ok(out), name, cli, vs),
    ensures
        out.variants@.len() == vs.len(),
        variant_names(out.variants@) == source_variant_names(vs),
{
    assert(variant_names(out.variants@) =~= source_variant_names(vs)) by {
        assert forall|i: int| 0 <= i < vs.len() implies variant_names(out.variants@)[i] == source_variant_names(vs)[i] by {
            assert(mirrors_variant(out.variants@[i], vs[i]));
        }
    }
}

} // verus!
