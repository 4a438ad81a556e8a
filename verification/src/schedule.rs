//! The variant scheduler: enumerates the font variants to compare,
//! filters families through accept and reject patterns, orders the
//! work deterministically, and reassembles per-task outcomes in that
//! order, failing the whole batch on the first error.
use vstd::prelude::*;
use vstd::relations::{sorted_by, total_ordering};
use vstd::seq_lib::lemma_sorted_unique;
use crate::errors::RunError;
use crate::fonts::{FaceKey, Family};
use crate::text::{lex_le, str_lex_le, lemma_lex_le_total, lemma_lex_le_antisymmetric,
    lemma_lex_le_transitive};
use crate::files::str_eq;

verus! {

/// One unit of scheduled work: a family name and the variant fields of
/// one of its faces.
#[derive(Debug, PartialEq, Eq)]
pub struct Variant {
    pub family: String,
    pub weight: u16,
    pub stretch: u16,
    pub style: u8,
}

/// The mathematical value of a `Variant`, which is also its ordering
/// key: family first, then weight, stretch, and style.
pub ghost struct VariantKey {
    pub family: Seq<char>,
    pub weight: u16,
    pub stretch: u16,
    pub style: u8,
}

impl View for Variant {
    type V = VariantKey;

    open spec fn view(&self) -> VariantKey {
        VariantKey {
            family: self.family@,
            weight: self.weight,
            stretch: self.stretch,
            style: self.style,
        }
    }
}

impl Variant {
    /// An equal-valued copy.
    pub fn duplicate(&self) -> (r: Variant)
        ensures
            r@ == self@,
    {
        Variant {
            family: self.family.clone(),
            weight: self.weight,
            stretch: self.stretch,
            style: self.style,
        }
    }
}

/// The total order on scheduled work: by family name lexicographically,
/// then by weight, stretch, and style, ascending.
pub open spec fn key_le(a: VariantKey, b: VariantKey) -> bool {
    if a.family != b.family {
        lex_le(a.family, b.family)
    } else if a.weight != b.weight {
        a.weight < b.weight
    } else if a.stretch != b.stretch {
        a.stretch < b.stretch
    } else {
        a.style <= b.style
    }
}

/// `key_le` is a total order on variant keys.
pub proof fn lemma_key_le_total_ordering()
    ensures
        total_ordering(|a: VariantKey, b: VariantKey| key_le(a, b)),
{
    let leq = |a: VariantKey, b: VariantKey| key_le(a, b);
    assert forall|a: VariantKey| #[trigger] leq(a, a) by {}
    assert forall|a: VariantKey, b: VariantKey| #[trigger] leq(a, b) && #[trigger] leq(b, a)
        implies a == b by {
        if a.family != b.family {
            lemma_lex_le_antisymmetric(a.family, b.family);
        }
    }
    assert forall|a: VariantKey, b: VariantKey, c: VariantKey|
        #[trigger] leq(a, b) && #[trigger] leq(b, c) implies leq(a, c) by {
        if a.family != b.family && b.family != c.family {
            lemma_lex_le_transitive(a.family, b.family, c.family);
            if a.family == c.family {
                lemma_lex_le_antisymmetric(a.family, b.family);
            }
        }
    }
    assert forall|a: VariantKey, b: VariantKey| #[trigger] leq(a, b) || #[trigger] leq(b, a) by {
        if a.family != b.family {
            lemma_lex_le_total(a.family, b.family);
        }
    }
}

/// Any two variant keys are comparable.
pub proof fn lemma_key_le_connected(a: VariantKey, b: VariantKey)
    ensures
        key_le(a, b) || key_le(b, a),
{
    if a.family != b.family {
        lemma_lex_le_total(a.family, b.family);
    }
}

/// The scheduling order is transitive.
pub proof fn lemma_key_le_trans(a: VariantKey, b: VariantKey, c: VariantKey)
    requires
        key_le(a, b),
        key_le(b, c),
    ensures
        key_le(a, c),
{
    if a.family != b.family && b.family != c.family {
        lemma_lex_le_transitive(a.family, b.family, c.family);
        if a.family == c.family {
            lemma_lex_le_antisymmetric(a.family, b.family);
        }
    }
}

/// Compares two variants in the scheduling order.
pub fn variant_le(a: &Variant, b: &Variant) -> (r: bool)
    ensures
        r == key_le(a@, b@),
{
    if !str_eq(a.family.as_str(), b.family.as_str()) {
        str_lex_le(a.family.as_str(), b.family.as_str())
    } else if a.weight != b.weight {
        a.weight < b.weight
    } else if a.stretch != b.stretch {
        a.stretch < b.stretch
    } else {
        a.style <= b.style
    }
}

/// The keys of a sequence of variants, in order.
pub open spec fn vkeys(s: Seq<Variant>) -> Seq<VariantKey> {
    s.map_values(|v: Variant| v@)
}

/// Whether a family survives the accept and reject patterns: it must
/// match the accept pattern (when one is given) and must not match the
/// reject pattern (when one is given); exclusion wins on conflict.
pub open spec fn family_kept(
    name: Seq<char>,
    accept: Option<Seq<char>>,
    reject: Option<Seq<char>>,
) -> bool {
    &&& match accept {
        Option::Some(p) => regex_match(p, name),
        Option::None => true,
    }
    &&& match reject {
        Option::Some(p) => !regex_match(p, name),
        Option::None => true,
    }
}

/// The work one family contributes: its first face only, or every face
/// when variant comparison is requested.
pub open spec fn family_variants(f: Family, all_variants: bool) -> Seq<VariantKey> {
    let taken = if all_variants {
        f.faces@
    } else {
        f.faces@.take(if f.faces@.len() == 0 { 0 } else { 1 })
    };
    taken.map_values(
        |k: FaceKey|
            VariantKey { family: f.name@, weight: k.weight, stretch: k.stretch, style: k.style },
    )
}

/// The variants selected from the families, in family order, before
/// sorting.
pub open spec fn selected_variants(
    fams: Seq<Family>,
    accept: Option<Seq<char>>,
    reject: Option<Seq<char>>,
    all_variants: bool,
) -> Seq<VariantKey>
    decreases fams.len(),
{
    if fams.len() == 0 {
        Seq::empty()
    } else {
        (if family_kept(fams[0].name@, accept, reject) {
            family_variants(fams[0], all_variants)
        } else {
            Seq::empty()
        }) + selected_variants(fams.drop_first(), accept, reject, all_variants)
    }
}

proof fn lemma_selected_snoc(
    fams: Seq<Family>,
    f: Family,
    accept: Option<Seq<char>>,
    reject: Option<Seq<char>>,
    all_variants: bool,
)
    ensures
        selected_variants(fams.push(f), accept, reject, all_variants) == selected_variants(
            fams,
            accept,
            reject,
            all_variants,
        ) + (if family_kept(f.name@, accept, reject) {
            family_variants(f, all_variants)
        } else {
            Seq::<VariantKey>::empty()
        }),
    decreases fams.len(),
{
    let tail = if family_kept(f.name@, accept, reject) {
        family_variants(f, all_variants)
    } else {
        Seq::<VariantKey>::empty()
    };
    if fams.len() == 0 {
        assert(fams.push(f)[0] == f);
        assert(fams.push(f).drop_first() =~= Seq::<Family>::empty());
        assert(selected_variants(Seq::<Family>::empty(), accept, reject, all_variants)
            =~= Seq::<VariantKey>::empty());
        assert(fams =~= Seq::<Family>::empty());
        assert(selected_variants(fams.push(f), accept, reject, all_variants) =~= selected_variants(
            fams,
            accept,
            reject,
            all_variants,
        ) + tail);
    } else {
        assert(fams.push(f)[0] == fams[0]);
        assert(fams.push(f).drop_first() =~= fams.drop_first().push(f));
        lemma_selected_snoc(fams.drop_first(), f, accept, reject, all_variants);
        assert(selected_variants(fams.push(f), accept, reject, all_variants) =~= selected_variants(
            fams,
            accept,
            reject,
            all_variants,
        ) + tail);
    }
}

/// Whether a pattern is a valid regular expression.
pub uninterp spec fn regex_valid(pattern: Seq<char>) -> bool;

/// Whether a valid pattern matches somewhere in the text.
pub uninterp spec fn regex_match(pattern: Seq<char>, text: Seq<char>) -> bool;

/// Relies on regex::Regex::new: whether a pattern compiles is a function
/// of the pattern alone.
#[verifier::external_body]
fn regex_compiles(pattern: &str) -> (r: bool)
    ensures
        r == regex_valid(pattern@),
{
    regex::Regex::new(pattern).is_ok()
}

/// Relies on regex::Regex::new and regex::Regex::is_match: whether a
/// valid pattern matches is a function of the pattern and the text
/// alone.
#[verifier::external_body]
fn regex_is_match(pattern: &str, text: &str) -> (r: bool)
    requires
        regex_valid(pattern@),
    ensures
        r == regex_match(pattern@, text@),
{
    match regex::Regex::new(pattern) {
        Ok(re) => re.is_match(text),
        Err(_) => false,
    }
}

/// Whether a failed selection blames an invalid reject pattern `q`,
/// reporting exactly it.
pub open spec fn bad_reject_pattern(p: String, reject: Option<String>) -> bool {
    match reject {
        Option::Some(q) => !regex_valid(q@) && p@ == q@,
        Option::None => false,
    }
}

/// The view of an optional pattern.
pub open spec fn opt_pattern(o: Option<String>) -> Option<Seq<char>> {
    match o {
        Option::Some(p) => Option::Some(p@),
        Option::None => Option::None,
    }
}

/// Selects the variants to compare: families are filtered through the
/// accept pattern, then the reject pattern (exclusion wins); each
/// surviving family contributes its first face, and every further face
/// when `all_variants` is set. An invalid pattern fails the run, the
/// accept pattern being checked first.
pub fn select_variants(
    families: &Vec<Family>,
    accept: &Option<String>,
    reject: &Option<String>,
    all_variants: bool,
) -> (r: Result<Vec<Variant>, RunError>)
    ensures
        match r {
            Result::Ok(v) => {
                &&& (*accept matches Option::Some(p) ==> regex_valid(p@))
                &&& (*reject matches Option::Some(p) ==> regex_valid(p@))
                &&& vkeys(v@) == selected_variants(
                    families@,
                    opt_pattern(*accept),
                    opt_pattern(*reject),
                    all_variants,
                )
            },
            Result::Err(e) => match e {
                RunError::BadPattern(p) => match *accept {
                    Option::Some(q) => if !regex_valid(q@) {
                        p@ == q@
                    } else {
                        bad_reject_pattern(p, *reject)
                    },
                    Option::None => bad_reject_pattern(p, *reject),
                },
                _ => false,
            },
        },
{
    if let Option::Some(p) = accept {
        if !regex_compiles(p.as_str()) {
            return Result::Err(RunError::BadPattern(p.clone()));
        }
    }
    if let Option::Some(p) = reject {
        if !regex_compiles(p.as_str()) {
            return Result::Err(RunError::BadPattern(p.clone()));
        }
    }
    let ghost acc = opt_pattern(*accept);
    let ghost rej = opt_pattern(*reject);
    let mut out: Vec<Variant> = Vec::new();
    let n = families.len();
    let mut i: usize = 0;
    proof {
        assert(families@.take(0) =~= Seq::<Family>::empty());
        assert(vkeys(out@) =~= selected_variants(families@.take(0), acc, rej, all_variants));
    }
    while i < n
        invariant
            n == families.len(),
            i <= n,
            *accept matches Option::Some(p) ==> regex_valid(p@),
            *reject matches Option::Some(p) ==> regex_valid(p@),
            acc == opt_pattern(*accept),
            rej == opt_pattern(*reject),
            vkeys(out@) == selected_variants(families@.take(i as int), acc, rej, all_variants),
        decreases n - i,
    {
        let fam = &families[i];
        let mut keep = true;
        if let Option::Some(p) = accept {
            if !regex_is_match(p.as_str(), fam.name.as_str()) {
                keep = false;
            }
        }
        if keep {
            if let Option::Some(p) = reject {
                if regex_is_match(p.as_str(), fam.name.as_str()) {
                    keep = false;
                }
            }
        }
        proof {
            assert(keep == family_kept(fam.name@, acc, rej));
        }
        let ghost base = vkeys(out@);
        if keep {
            let limit = if all_variants {
                fam.faces.len()
            } else if fam.faces.len() == 0 {
                0
            } else {
                1
            };
            proof {
                assert(family_variants(*fam, all_variants).len() == limit);
                assert forall|j: int| 0 <= j < limit implies family_variants(*fam, all_variants)[j]
                    == (VariantKey {
                    family: fam.name@,
                    weight: fam.faces[j].weight,
                    stretch: fam.faces[j].stretch,
                    style: fam.faces[j].style,
                }) by {}
                assert(vkeys(out@) =~= base + family_variants(*fam, all_variants).take(0));
            }
            let mut t: usize = 0;
            while t < limit
                invariant
                    t <= limit,
                    limit <= fam.faces.len(),
                    family_variants(*fam, all_variants).len() == limit,
                    forall|j: int|
                        0 <= j < limit ==> family_variants(*fam, all_variants)[j] == (VariantKey {
                            family: fam.name@,
                            weight: fam.faces[j].weight,
                            stretch: fam.faces[j].stretch,
                            style: fam.faces[j].style,
                        }),
                    vkeys(out@) == base + family_variants(*fam, all_variants).take(t as int),
                decreases limit - t,
            {
                let k = fam.faces[t];
                let ghost prev = out@;
                out.push(
                    Variant {
                        family: fam.name.clone(),
                        weight: k.weight,
                        stretch: k.stretch,
                        style: k.style,
                    },
                );
                proof {
                    assert(out@.last()@ == family_variants(*fam, all_variants)[t as int]);
                    assert(vkeys(out@) =~= vkeys(prev).push(out@.last()@));
                    assert(family_variants(*fam, all_variants).take(t + 1) =~= family_variants(
                        *fam,
                        all_variants,
                    ).take(t as int).push(family_variants(*fam, all_variants)[t as int]));
                    assert(vkeys(out@) =~= base + family_variants(*fam, all_variants).take(
                        t + 1,
                    ));
                }
                t += 1;
            }
            proof {
                assert(family_variants(*fam, all_variants).take(limit as int) =~= family_variants(
                    *fam,
                    all_variants,
                ));
            }
        }
        proof {
            lemma_selected_snoc(families@.take(i as int), *fam, acc, rej, all_variants);
            assert(families@.take(i + 1) =~= families@.take(i as int).push(*fam));
            assert(vkeys(out@) =~= selected_variants(families@.take(i + 1), acc, rej, all_variants));
        }
        i += 1;
    }
    proof {
        assert(families@.take(n as int) =~= families@);
    }
    Result::Ok(out)
}

fn insert_position(out: &Vec<Variant>, x: &Variant) -> (pos: usize)
    ensures
        pos <= out.len(),
        forall|t: int| 0 <= t < pos ==> key_le(#[trigger] vkeys(out@)[t], x@),
        pos < out.len() ==> !key_le(vkeys(out@)[pos as int], x@),
{
    let m = out.len();
    let mut pos: usize = 0;
    while pos < m
        invariant
            m == out.len(),
            pos <= m,
            forall|t: int| 0 <= t < pos ==> key_le(#[trigger] vkeys(out@)[t], x@),
        decreases m - pos,
    {
        let le = variant_le(&out[pos], x);
        proof {
            assert(vkeys(out@)[pos as int] == out@[pos as int]@);
        }
        if !le {
            return pos;
        }
        pos += 1;
    }
    pos
}

/// Sorts the selected variants into the scheduling order: family first,
/// then weight, stretch, and style, ascending. The result is a sorted
/// rearrangement of the input.
pub fn sort_variants(input: Vec<Variant>) -> (r: Vec<Variant>)
    ensures
        sorted_by(vkeys(r@), |a: VariantKey, b: VariantKey| key_le(a, b)),
        vkeys(r@).to_multiset() == vkeys(input@).to_multiset(),
{
    broadcast use vstd::seq_lib::group_to_multiset_ensures;
    broadcast use vstd::seq_lib::to_multiset_insert;

    let ghost leq = |a: VariantKey, b: VariantKey| key_le(a, b);
    let mut out: Vec<Variant> = Vec::new();
    let n = input.len();
    let mut i: usize = 0;
    proof {
        assert(vkeys(input@.take(0)) =~= Seq::<VariantKey>::empty());
        assert(vkeys(out@) =~= Seq::<VariantKey>::empty());
        assert(vkeys(out@).to_multiset() =~= vkeys(input@.take(0)).to_multiset());
    }
    while i < n
        invariant
            n == input.len(),
            i <= n,
            leq == (|a: VariantKey, b: VariantKey| key_le(a, b)),
            sorted_by(vkeys(out@), leq),
            vkeys(out@).to_multiset() == vkeys(input@.take(i as int)).to_multiset(),
        decreases n - i,
    {
        let x = input[i].duplicate();
        let ghost kx = x@;
        let pos = insert_position(&out, &x);
        let ghost old_out = out@;
        out.insert(pos, x);
        proof {
            assert(out@ == old_out.insert(pos as int, x));
            assert(vkeys(out@) =~= vkeys(old_out).insert(pos as int, kx));
            lemma_key_le_total_ordering();
            assert forall|a: int, b: int| 0 <= a < b < vkeys(out@).len() implies leq(
                #[trigger] vkeys(out@)[a],
                #[trigger] vkeys(out@)[b],
            ) by {
                let s = vkeys(old_out);
                let p = pos as int;
                if b < p {
                    assert(leq(s[a], s[b]));
                } else if a < p && b == p {
                    assert(key_le(s[a], kx));
                } else if a < p && b > p {
                    assert(leq(s[a], s[b - 1]));
                } else if a == p {
                    assert(b > p && b - 1 < s.len());
                    assert(!key_le(s[p], kx));
                    lemma_key_le_connected(s[p], kx);
                    assert(key_le(kx, s[p]));
                    if b - 1 > p {
                        assert(leq(s[p], s[b - 1]));
                        lemma_key_le_trans(kx, s[p], s[b - 1]);
                    }
                } else {
                    assert(leq(s[a - 1], s[b - 1]));
                }
            }
            assert(vkeys(input@.take(i + 1)) =~= vkeys(input@.take(i as int)).push(kx));
            vstd::seq_lib::to_multiset_insert(vkeys(old_out), pos as int, kx);
            vstd::seq_lib::to_multiset_build(vkeys(input@.take(i as int)), kx);
            assert(vkeys(out@).to_multiset() =~= vkeys(input@.take(i + 1)).to_multiset());
        }
        i += 1;
    }
    proof {
        assert(input@.take(n as int) =~= input@);
    }
    out
}

/// What one task's compile-and-render produced: encoded image bytes and
/// pixel dimensions.
pub struct RenderOutput {
    pub bytes: Vec<u8>,
    pub width: u32,
    pub height: u32,
}

/// One finished render: the originating variant and its image.
#[derive(Debug)]
pub struct Render {
    pub variant: Variant,
    pub bytes: Vec<u8>,
    pub width: u32,
    pub height: u32,
}

/// Reassembles per-task outcomes in the original task order, whatever
/// order the tasks finished in. The first failed task, in task order,
/// fails the whole batch with an error naming its family and variant; no
/// partial result survives.
pub fn collect_results(variants: &Vec<Variant>, outcomes: Vec<Result<RenderOutput, String>>) -> (r:
    Result<Vec<Render>, RunError>)
    requires
        variants.len() == outcomes.len(),
    ensures
        match r {
            Result::Ok(rs) => {
                &&& forall|j: int| 0 <= j < outcomes.len() ==> #[trigger] outcomes[j] is Ok
                &&& rs.len() == variants.len()
                &&& forall|j: int|
                    0 <= j < rs.len() ==> (#[trigger] rs[j]).variant@ == variants[j]@ && rs[j].bytes@
                        == outcomes[j]->Ok_0.bytes@ && rs[j].width == outcomes[j]->Ok_0.width
                        && rs[j].height == outcomes[j]->Ok_0.height
            },
            Result::Err(e) => exists|j: int|
                {
                    &&& 0 <= j < outcomes.len()
                    &&& #[trigger] outcomes[j] is Err
                    &&& (forall|t: int| 0 <= t < j ==> #[trigger] outcomes[t] is Ok)
                    &&& e matches RunError::VariantCompile { family, weight, stretch, style, detail }
                        && family@ == variants[j]@.family && weight == variants[j]@.weight
                        && stretch == variants[j]@.stretch && style == variants[j]@.style
                        && detail@ == outcomes[j]->Err_0@
                },
        },
{
    let mut rs: Vec<Render> = Vec::new();
    let n = variants.len();
    let mut i: usize = 0;
    while i < n
        invariant
            n == variants.len() == outcomes.len(),
            i <= n,
            rs.len() == i,
            forall|j: int| 0 <= j < i ==> #[trigger] outcomes[j] is Ok,
            forall|j: int|
                0 <= j < i ==> (#[trigger] rs[j]).variant@ == variants[j]@ && rs[j].bytes@
                    == outcomes[j]->Ok_0.bytes@ && rs[j].width == outcomes[j]->Ok_0.width
                    && rs[j].height == outcomes[j]->Ok_0.height,
        decreases n - i,
    {
        match &outcomes[i] {
            Result::Ok(o) => {
                let bytes = o.bytes.clone();
                proof {
                    assert(bytes@ =~= outcomes[i as int]->Ok_0.bytes@);
                }
                rs.push(
                    Render {
                        variant: variants[i].duplicate(),
                        bytes,
                        width: o.width,
                        height: o.height,
                    },
                );
            },
            Result::Err(d) => {
                return Result::Err(
                    RunError::VariantCompile {
                        family: variants[i].family.clone(),
                        weight: variants[i].weight,
                        stretch: variants[i].stretch,
                        style: variants[i].style,
                        detail: d.clone(),
                    },
                );
            },
        }
        i += 1;
    }
    Result::Ok(rs)
}

/// The process-wide memoization cache of the external compiler, modeled
/// as an object owned by the top-level run rather than ambient state; it
/// is pruned once after each parallel batch to cap memory growth.
pub struct CompilerCache {
    /// How many batches have been pruned so far.
    pub batches_pruned: u64,
}

/// Relies on comemo::evict: drops every memoized entry older than
/// `max_age` compilation generations.
#[verifier::external_body]
fn evict_generations(max_age: usize) {
    comemo::evict(max_age)
}

impl CompilerCache {
    /// A handle on the compiler's cache, before any batch has run.
    pub fn new() -> (r: CompilerCache)
        ensures
            r.batches_pruned == 0,
    {
        CompilerCache { batches_pruned: 0 }
    }

    /// Prunes the cache to the most recent compilation generation; to be
    /// called once after each parallel batch.
    pub fn prune_after_batch(&mut self)
        requires
            old(self).batches_pruned < u64::MAX,
        ensures
            final(self).batches_pruned == old(self).batches_pruned + 1,
    {
        evict_generations(1);
        self.batches_pruned = self.batches_pruned + 1;
    }
}

/// Law: scheduling is deterministic. Any two batches whose sorted
/// variant sequences rearrange the same work are ordered identically,
/// however their tasks were timed or interleaved.
pub proof fn lemma_schedule_deterministic(x: Seq<Variant>, y: Seq<Variant>)
    requires
        sorted_by(vkeys(x), |a: VariantKey, b: VariantKey| key_le(a, b)),
        sorted_by(vkeys(y), |a: VariantKey, b: VariantKey| key_le(a, b)),
        vkeys(x).to_multiset() == vkeys(y).to_multiset(),
    ensures
        vkeys(x) == vkeys(y),
{
    lemma_key_le_total_ordering();
    lemma_sorted_unique(vkeys(x), vkeys(y), |a: VariantKey, b: VariantKey| key_le(a, b));
}

} // verus!
