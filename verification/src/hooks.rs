use vstd::prelude::*;
use crate::strmap::assoc_lookup;
use crate::config::MergedAppConfig;

verus! {

/// The known managed build-identity fields, each with the property key
/// that configures it: field patching covers exactly these.
pub open spec fn spec_known_build_fields() -> Seq<(Seq<char>, Seq<char>)> {
    seq![
        ("ro.product.manufacturer"@, "MANUFACTURER"@),
        ("ro.product.brand"@, "BRAND"@),
        ("ro.product.model"@, "MODEL"@),
        ("ro.product.device"@, "DEVICE"@),
        ("ro.product.name"@, "PRODUCT"@),
        ("ro.build.fingerprint"@, "FINGERPRINT"@),
        ("ro.build.id"@, "ID"@),
        ("ro.build.display.id"@, "DISPLAY"@),
        ("ro.build.tags"@, "TAGS"@),
        ("ro.build.type"@, "TYPE"@),
        ("ro.hardware"@, "HARDWARE"@),
        ("ro.serialno"@, "SERIAL"@),
    ]
}

/// The (field, value) pairs to patch: for each known field whose property
/// key the effective map binds, in the fixed field order, the mapped value.
pub open spec fn spec_patches(
    known: Seq<(Seq<char>, Seq<char>)>,
    f: spec_fn(Seq<char>) -> Option<Seq<char>>,
) -> Seq<(Seq<char>, Seq<char>)>
    decreases known.len(),
{
    if known.len() == 0 {
        Seq::empty()
    } else {
        let rest = spec_patches(known.drop_last(), f);
        match f(known.last().0) {
            Some(v) => rest.push((known.last().1, v)),
            None => rest,
        }
    }
}

/// The patch list depends only on what the lookup binds: two pointwise
/// equal lookups give the same patches.
pub proof fn lemma_spec_patches_congruent(
    known: Seq<(Seq<char>, Seq<char>)>,
    f: spec_fn(Seq<char>) -> Option<Seq<char>>,
    g: spec_fn(Seq<char>) -> Option<Seq<char>>,
)
    requires
        forall|q: Seq<char>| #[trigger] f(q) == g(q),
    ensures
        spec_patches(known, f) == spec_patches(known, g),
    decreases known.len(),
{
    if known.len() > 0 {
        lemma_spec_patches_congruent(known.drop_last(), f, g);
        assert(f(known.last().0) == g(known.last().0));
    }
}

/// The character-sequence view of a built patch list.
pub open spec fn patches_kv(s: Seq<(String, String)>) -> Seq<(Seq<char>, Seq<char>)> {
    s.map_values(|p: (String, String)| (p.0@, p.1@))
}

/// The known fields as executable strings, in the order of
/// `spec_known_build_fields`.
fn known_build_fields() -> (r: Vec<(&'static str, &'static str)>)
    ensures
        r@.map_values(|p: (&'static str, &'static str)| (p.0@, p.1@))
            =~= spec_known_build_fields(),
{
    let mut v: Vec<(&'static str, &'static str)> = Vec::new();
    v.push(("ro.product.manufacturer", "MANUFACTURER"));
    v.push(("ro.product.brand", "BRAND"));
    v.push(("ro.product.model", "MODEL"));
    v.push(("ro.product.device", "DEVICE"));
    v.push(("ro.product.name", "PRODUCT"));
    v.push(("ro.build.fingerprint", "FINGERPRINT"));
    v.push(("ro.build.id", "ID"));
    v.push(("ro.build.display.id", "DISPLAY"));
    v.push(("ro.build.tags", "TAGS"));
    v.push(("ro.build.type", "TYPE"));
    v.push(("ro.hardware", "HARDWARE"));
    v.push(("ro.serialno", "SERIAL"));
    v
}

/// Plans the build-field patch: every configured key naming a known
/// build-identity field yields one (field, value) pair; configured keys
/// naming no known field are simply not part of the plan, so one missing
/// target never aborts the others.
pub fn build_field_patches(merged: &MergedAppConfig) -> (r: Vec<(String, String)>)
    requires
        merged.properties.wf(),
    ensures
        patches_kv(r@) == spec_patches(
            spec_known_build_fields(),
            |q: Seq<char>| assoc_lookup(merged@.properties, q),
        ),
{
    let ghost f = |q: Seq<char>| assoc_lookup(merged@.properties, q);
    let ghost known = spec_known_build_fields();
    let fields = known_build_fields();
    let n: usize = fields.len();
    let mut out: Vec<(String, String)> = Vec::new();
    proof {
        assert(known.take(0) =~= Seq::<(Seq<char>, Seq<char>)>::empty());
        assert(patches_kv(out@) =~= Seq::<(Seq<char>, Seq<char>)>::empty());
    }
    let mut j: usize = 0;
    while j < n
        invariant
            n == fields@.len(),
            0 <= j <= n,
            known == spec_known_build_fields(),
            known.len() == n,
            forall|i: int| 0 <= i < n ==> ((#[trigger] fields@[i]).0@ == known[i].0
                && fields@[i].1@ == known[i].1),
            merged.properties.wf(),
            f == (|q: Seq<char>| assoc_lookup(merged@.properties, q)),
            patches_kv(out@) == spec_patches(known.take(j as int), f),
        decreases n - j,
    {
        let key: &str = fields[j].0;
        let field: &str = fields[j].1;
        let ghost out_before = out@;
        match merged.properties.get(key) {
            Some(v) => {
                out.push((field.to_owned(), v.clone()));
                proof {
                    assert(patches_kv(out@) =~= patches_kv(out_before).push((field@, v@)));
                }
            },
            None => {},
        }
        proof {
            assert(known.take(j as int + 1).drop_last() =~= known.take(j as int));
            assert(known.take(j as int + 1).last() == known[j as int]);
            assert(f(known[j as int].0) == assoc_lookup(merged@.properties, known[j as int].0));
        }
        j = j + 1;
    }
    proof {
        assert(known.take(n as int) =~= known);
    }
    out
}

/// How many entries of a per-field outcome list are true.
pub open spec fn count_true(s: Seq<bool>) -> nat
    decreases s.len(),
{
    if s.len() == 0 {
        0
    } else {
        count_true(s.drop_last()) + (if s.last() {
            1nat
        } else {
            0nat
        })
    }
}

/// The outcome of one build-field patch pass. There is no fatal variant:
/// a field that could not be written is counted and the rest still apply.
pub struct FieldPatchReport {
    pub attempted: usize,
    pub applied: usize,
    pub failed: usize,
}

/// Tallies the per-field outcomes of a patch pass: failures are partial,
/// to be logged, never a hard failure of the whole pass.
pub fn field_patch_report(results: &Vec<bool>) -> (r: FieldPatchReport)
    ensures
        r.attempted == results@.len(),
        r.applied == count_true(results@),
        r.failed == results@.len() - count_true(results@),
{
    let n: usize = results.len();
    let mut applied: usize = 0;
    let mut i: usize = 0;
    while i < n
        invariant
            n == results@.len(),
            0 <= i <= n,
            applied <= i,
            applied == count_true(results@.take(i as int)),
        decreases n - i,
    {
        proof {
            assert(results@.take(i as int + 1).drop_last() =~= results@.take(i as int));
            assert(results@.take(i as int + 1).last() == results@[i as int]);
        }
        if results[i] {
            applied = applied + 1;
        }
        i = i + 1;
    }
    proof {
        assert(results@.take(n as int) =~= results@);
    }
    FieldPatchReport { attempted: n, applied, failed: n - applied }
}

} // verus!
