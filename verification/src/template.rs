//! Command templates: expanding a template string, whose marked
//! segments range over lists of substitutions, into every concrete
//! command it denotes.
//!
//! A template configuration maps marker strings to substitution
//! configurations, which may themselves hold templates.  Expansion
//! first splits the template text into literal and marker segments
//! ([`Segment::build_from_template`]), then enumerates every
//! combination of substitutions ([`permutate_segments`]).  Markers
//! are applied in their configured order, and the enumeration orders
//! marker values by marker text, so the output is deterministic.
//! An empty marker string marks nothing and splits nothing.

use vstd::prelude::*;

use crate::parse::strs_view;
use crate::text::{chars_to_string, str_to_char_vec};

verus! {

/// One command to run, or a nested template to expand.
#[derive(Debug)]
pub enum CommandConfig {
    Command(String),
    Template(TemplateConfig),
}

/// One or several command configurations.
#[derive(Debug)]
pub enum SubcommandConfig {
    Many(Vec<CommandConfig>),
    Single(CommandConfig),
}

/// A template string and what its markers stand for, in order.
#[derive(Debug)]
pub struct TemplateConfig {
    pub template: String,
    pub replace: Vec<(String, SubcommandConfig)>,
}

/// A piece of a template: literal text, or a marker to substitute.
#[derive(Debug, PartialEq)]
pub enum Segment {
    Literal(String),
    Replace(String),
}

/// Mathematical value of a [`Segment`].
pub ghost enum SegV {
    Literal(Seq<char>),
    Replace(Seq<char>),
}

impl View for Segment {
    type V = SegV;

    open spec fn view(&self) -> SegV {
        match self {
            Segment::Literal(s) => SegV::Literal(s@),
            Segment::Replace(s) => SegV::Replace(s@),
        }
    }
}

/// The segment views of a segment list.
pub open spec fn segs_view(l: Seq<Segment>) -> Seq<SegV> {
    Seq::new(l.len(), |i: int| l[i]@)
}

/// The marker strings of a replacement list, in configured order.
pub open spec fn replace_keys(l: Seq<(String, SubcommandConfig)>) -> Seq<Seq<char>> {
    Seq::new(l.len(), |i: int| l[i].0@)
}

/// Whether `pat` occurs verbatim at `i`.
pub open spec fn spec_match_at(s: Seq<char>, pat: Seq<char>, i: int) -> bool {
    0 <= i && i + pat.len() <= s.len() && s.subrange(i, i + pat.len() as int) == pat
}

/// The first occurrence of `pat` at or after `i`, if any.
pub open spec fn spec_find_at(s: Seq<char>, pat: Seq<char>, i: int) -> Option<int>
    decreases s.len() - i,
{
    if !(0 <= i && i + pat.len() <= s.len()) {
        None
    } else if pat.len() == 0 {
        Some(i)
    } else if s.subrange(i, i + pat.len() as int) == pat {
        Some(i)
    } else {
        spec_find_at(s, pat, i + 1)
    }
}

/// The pieces of `s` from `start` on, split at each occurrence of
/// `pat` (leftmost first, non-overlapping).  A piece may be empty;
/// an empty pattern never matches, leaving one piece.
pub open spec fn spec_split_from(s: Seq<char>, pat: Seq<char>, start: int) -> Seq<Seq<char>>
    decreases s.len() - start,
{
    if pat.len() == 0 {
        seq![s.subrange(start, s.len() as int)]
    } else {
        match spec_find_at(s, pat, start) {
            None => seq![s.subrange(start, s.len() as int)],
            Some(j) => if start <= j && j + pat.len() <= s.len() {
                seq![s.subrange(start, j)] + spec_split_from(s, pat, j + pat.len() as int)
            } else {
                seq![s.subrange(start, s.len() as int)]
            },
        }
    }
}

/// Pieces interleaved with the marker that split them: `p0 K p1 K
/// ... pn`, from piece `i` on.
pub open spec fn spec_interleave(pieces: Seq<Seq<char>>, key: Seq<char>, i: int) -> Seq<SegV>
    decreases pieces.len() - i,
{
    if !(0 <= i < pieces.len()) {
        Seq::empty()
    } else if i == pieces.len() - 1 {
        seq![SegV::Literal(pieces[i])]
    } else {
        seq![SegV::Literal(pieces[i]), SegV::Replace(key)] + spec_interleave(pieces, key, i + 1)
    }
}

/// One marker applied to a segment list, from segment `i` on: each
/// literal is split at the marker, markers already found stay.
pub open spec fn spec_apply_key(parts: Seq<SegV>, key: Seq<char>, i: int) -> Seq<SegV>
    decreases parts.len() - i,
{
    if !(0 <= i < parts.len()) {
        Seq::empty()
    } else {
        (match parts[i] {
            SegV::Literal(l) => spec_interleave(spec_split_from(l, key, 0), key, 0),
            SegV::Replace(k) => seq![SegV::Replace(k)],
        }) + spec_apply_key(parts, key, i + 1)
    }
}

/// All markers applied in order, from marker `j` on.
pub open spec fn spec_apply_keys(parts: Seq<SegV>, keys: Seq<Seq<char>>, j: int) -> Seq<SegV>
    decreases keys.len() - j,
{
    if !(0 <= j < keys.len()) {
        parts
    } else {
        spec_apply_keys(spec_apply_key(parts, keys[j], 0), keys, j + 1)
    }
}

/// Kept by the final clean-up: everything but empty literals.
pub open spec fn seg_nonempty(s: SegV) -> bool {
    match s {
        SegV::Literal(l) => l.len() > 0,
        SegV::Replace(_) => true,
    }
}

/// The clean-up predicate, as one function value.
pub open spec fn seg_keep() -> spec_fn(SegV) -> bool {
    |s: SegV| seg_nonempty(s)
}

/// The segments of a template: all markers applied to the template
/// text in configured order, empty literals dropped.
pub open spec fn spec_build_segments(template: Seq<char>, keys: Seq<Seq<char>>) -> Seq<SegV> {
    spec_apply_keys(seq![SegV::Literal(template)], keys, 0).filter(seg_keep())
}

/// Whether the characters `pat` occur in `v` at `i`.
fn match_at(v: &Vec<char>, pat: &Vec<char>, i: usize) -> (r: bool)
    requires
        i <= v@.len(),
    ensures
        r == spec_match_at(v@, pat@, i as int),
{
    let n = pat.len();
    let len = v.len();
    if n > len - i {
        return false;
    }
    let mut j: usize = 0;
    while j < n
        invariant
            n == pat@.len(),
            len == v@.len(),
            i + n <= len,
            j <= n,
            forall|k: int| 0 <= k < j ==> v@[i + k] == pat@[k],
        decreases n - j,
    {
        if v[i + j] != pat[j] {
            proof {
                let sub = v@.subrange(i as int, i + pat@.len() as int);
                assert(sub[j as int] == v@[i + j]);
                assert(sub != pat@);
            }
            return false;
        }
        j += 1;
    }
    proof {
        assert(v@.subrange(i as int, i + pat@.len() as int) =~= pat@);
    }
    true
}

/// The first occurrence of `pat` at or after `i`.
fn find_at(v: &Vec<char>, pat: &Vec<char>, i: usize) -> (r: Option<usize>)
    requires
        i <= v@.len(),
    ensures
        match r {
            Some(j) => spec_find_at(v@, pat@, i as int) == Some(j as int) && i <= j && j
                + pat@.len() <= v@.len(),
            None => spec_find_at(v@, pat@, i as int) is None,
        },
    decreases v@.len() - i,
{
    if pat.len() > v.len() - i {
        return None;
    }
    if pat.len() == 0 {
        return Some(i);
    }
    if match_at(v, pat, i) {
        return Some(i);
    }
    find_at(v, pat, i + 1)
}

/// Copy `v[a..b]`.
fn copy_range(v: &Vec<char>, a: usize, b: usize) -> (r: Vec<char>)
    requires
        a <= b <= v@.len(),
    ensures
        r@ == v@.subrange(a as int, b as int),
{
    let mut out: Vec<char> = Vec::new();
    let mut i: usize = a;
    while i < b
        invariant
            a <= i <= b <= v@.len(),
            out@ == v@.subrange(a as int, i as int),
        decreases b - i,
    {
        out.push(v[i]);
        proof {
            assert(v@.subrange(a as int, i + 1) =~= v@.subrange(a as int, i as int).push(
                v@[i as int],
            ));
        }
        i += 1;
    }
    out
}

/// Split `v` at each occurrence of `pat`, from `start` on, appending
/// the interleaved segments to `out`.
fn split_interleave(v: &Vec<char>, pat: &Vec<char>, start: usize, out: &mut Vec<Segment>)
    requires
        start <= v@.len(),
        pat@.len() > 0,
    ensures
        segs_view(final(out)@) == segs_view(old(out)@) + spec_interleave(
            spec_split_from(v@, pat@, start as int),
            pat@,
            0,
        ),
    decreases v@.len() - start,
{
    match find_at(v, pat, start) {
        None => {
            let piece = copy_range(v, start, v.len());
            out.push(Segment::Literal(chars_to_string(&piece)));
            proof {
                assert(spec_split_from(v@, pat@, start as int) =~= seq![
                    v@.subrange(start as int, v@.len() as int),
                ]);
                assert(segs_view(final(out)@) =~= segs_view(old(out)@) + spec_interleave(
                    spec_split_from(v@, pat@, start as int),
                    pat@,
                    0,
                ));
            }
        },
        Some(j) => {
            let piece = copy_range(v, start, j);
            out.push(Segment::Literal(chars_to_string(&piece)));
            let key = copy_range(pat, 0, pat.len());
            proof {
                assert(key@ =~= pat@);
            }
            out.push(Segment::Replace(chars_to_string(&key)));
            let ghost mid = out@;
            let vlen = v.len();
            proof {
                assert(j + pat@.len() <= vlen);
            }
            split_interleave(v, pat, j + pat.len(), out);
            proof {
                let pieces = spec_split_from(v@, pat@, start as int);
                let rest = spec_split_from(v@, pat@, j + pat@.len() as int);
                assert(pieces =~= seq![v@.subrange(start as int, j as int)] + rest);
                assert(rest.len() > 0);
                assert(pieces.len() >= 2);
                assert(pieces[0] == v@.subrange(start as int, j as int));
                assert forall|k: int| 0 <= k < rest.len() implies pieces[k + 1] == rest[k] by {};
                assert(spec_interleave(pieces, pat@, 0) =~= seq![
                    SegV::Literal(pieces[0]),
                    SegV::Replace(pat@),
                ] + spec_interleave(pieces, pat@, 1)) by {
                    assert(pieces.len() >= 2);
                };
                lemma_interleave_shift(pieces, rest, pat@, 1);
                assert(segs_view(mid) =~= segs_view(old(out)@) + seq![
                    SegV::Literal(pieces[0]),
                    SegV::Replace(pat@),
                ]);
                assert(segs_view(final(out)@) =~= segs_view(old(out)@) + spec_interleave(
                    pieces,
                    pat@,
                    0,
                ));
            }
        },
    }
}

/// Apply one marker to a segment list.
fn apply_key(parts: Vec<Segment>, key: &Vec<char>) -> (r: Vec<Segment>)
    ensures
        segs_view(r@) == spec_apply_key(segs_view(parts@), key@, 0),
{
    let ghost pv = segs_view(parts@);
    let mut out: Vec<Segment> = Vec::new();
    let mut i: usize = 0;
    while i < parts.len()
        invariant
            pv == segs_view(parts@),
            pv.len() == parts@.len(),
            i <= parts@.len(),
            segs_view(out@) + spec_apply_key(pv, key@, i as int) == spec_apply_key(pv, key@, 0),
        decreases parts@.len() - i,
    {
        let ghost out0 = segs_view(out@);
        match &parts[i] {
            Segment::Literal(l) => {
                if key.len() == 0 {
                    out.push(Segment::Literal(l.clone()));
                    proof {
                        assert(spec_split_from(l@, key@, 0) =~= seq![l@.subrange(0, l@.len() as int)]);
                        assert(l@.subrange(0, l@.len() as int) =~= l@);
                        assert(spec_interleave(spec_split_from(l@, key@, 0), key@, 0) =~= seq![
                            SegV::Literal(l@),
                        ]);
                        assert(segs_view(out@) =~= out0 + seq![SegV::Literal(l@)]);
                    }
                } else {
                    let lv = str_to_char_vec(l.as_str());
                    split_interleave(&lv, key, 0, &mut out);
                }
            },
            Segment::Replace(k) => {
                out.push(Segment::Replace(k.clone()));
                proof {
                    assert(segs_view(out@) =~= out0 + seq![SegV::Replace(k@)]);
                }
            },
        }
        proof {
            assert(pv[i as int] == parts@[i as int]@);
            assert(spec_apply_key(pv, key@, i as int) == (match pv[i as int] {
                SegV::Literal(l) => spec_interleave(spec_split_from(l, key@, 0), key@, 0),
                SegV::Replace(k) => seq![SegV::Replace(k)],
            }) + spec_apply_key(pv, key@, i + 1));
            assert(segs_view(out@) + spec_apply_key(pv, key@, i + 1) =~= spec_apply_key(
                pv,
                key@,
                0,
            ));
        }
        i += 1;
    }
    proof {
        assert(spec_apply_key(pv, key@, parts@.len() as int) =~= Seq::<SegV>::empty());
        assert(segs_view(out@) =~= segs_view(out@) + spec_apply_key(
            pv,
            key@,
            parts@.len() as int,
        ));
    }
    out
}

impl Segment {
    /// Split a template's text into its literal and marker segments:
    /// each marker is applied in configured order, and empty literals
    /// are dropped at the end.
    pub fn build_from_template(template: &TemplateConfig) -> (r: Vec<Segment>)
        ensures
            segs_view(r@) == spec_build_segments(
                template.template@,
                replace_keys(template.replace@),
            ),
    {
        let ghost keys = replace_keys(template.replace@);
        let ghost init = seq![SegV::Literal(template.template@)];
        let mut parts: Vec<Segment> = Vec::new();
        parts.push(Segment::Literal(template.template.clone()));
        proof {
            assert(segs_view(parts@) =~= init);
        }
        let mut j: usize = 0;
        while j < template.replace.len()
            invariant
                keys == replace_keys(template.replace@),
                keys.len() == template.replace@.len(),
                j <= template.replace@.len(),
                spec_apply_keys(segs_view(parts@), keys, j as int) == spec_apply_keys(
                    init,
                    keys,
                    0,
                ),
            decreases template.replace@.len() - j,
        {
            let keyv = str_to_char_vec(template.replace[j].0.as_str());
            proof {
                assert(keys[j as int] == keyv@);
            }
            parts = apply_key(parts, &keyv);
            j += 1;
        }
        proof {
            assert(spec_apply_keys(segs_view(parts@), keys, template.replace@.len() as int)
                == segs_view(parts@));
        }
        let mut res: Vec<Segment> = Vec::new();
        let ghost fv = segs_view(parts@);
        let mut i: usize = 0;
        while i < parts.len()
            invariant
                fv == segs_view(parts@),
                fv.len() == parts@.len(),
                i <= parts@.len(),
                segs_view(res@) == fv.take(i as int).filter(seg_keep()),
            decreases parts@.len() - i,
        {
            let ghost res0 = segs_view(res@);
            let keep = match &parts[i] {
                Segment::Literal(l) => !l.as_str().is_empty(),
                Segment::Replace(_) => true,
            };
            if keep {
                let copy = match &parts[i] {
                    Segment::Literal(l) => Segment::Literal(l.clone()),
                    Segment::Replace(k) => Segment::Replace(k.clone()),
                };
                res.push(copy);
                proof {
                    assert(segs_view(res@) =~= res0.push(fv[i as int]));
                }
            }
            proof {
                reveal(Seq::filter);
                let single = seq![fv[i as int]];
                assert(keep == seg_nonempty(fv[i as int]));
                assert(seg_keep()(fv[i as int]) == seg_nonempty(fv[i as int]));
                assert(single.drop_last() =~= Seq::<SegV>::empty());
                assert(single.last() == fv[i as int]);
                assert(Seq::<SegV>::empty().filter(seg_keep()) == Seq::<SegV>::empty());
                assert(single.filter(seg_keep()) == (if seg_keep()(single.last()) {
                    single.drop_last().filter(seg_keep()).push(single.last())
                } else {
                    single.drop_last().filter(seg_keep())
                }));
                assert(single.filter(seg_keep()) == (if seg_nonempty(fv[i as int]) {
                    Seq::<SegV>::empty().push(fv[i as int])
                } else {
                    Seq::<SegV>::empty()
                }));
                Seq::<SegV>::filter_distributes_over_add(fv.take(i as int), single, seg_keep());
                assert(fv.take(i + 1) =~= fv.take(i as int) + single);
                assert(segs_view(res@) =~= fv.take(i + 1).filter(seg_keep()));
            }
            i += 1;
        }
        proof {
            assert(fv.take(fv.len() as int) =~= fv);
        }
        res
    }
}

/// Strict character-wise lexicographic order, from position `i` on.
pub open spec fn lex_lt_from(a: Seq<char>, b: Seq<char>, i: int) -> bool
    decreases a.len() - i,
{
    if i >= b.len() {
        false
    } else if i >= a.len() {
        true
    } else if (a[i] as u32) < (b[i] as u32) {
        true
    } else if a[i] != b[i] {
        false
    } else {
        lex_lt_from(a, b, i + 1)
    }
}

/// Strict lexicographic order on marker strings.
pub open spec fn lex_lt(a: Seq<char>, b: Seq<char>) -> bool {
    lex_lt_from(a, b, 0)
}

/// Insert a marker into a sorted list of distinct markers.
pub open spec fn spec_insert_key(keys: Seq<Seq<char>>, k: Seq<char>) -> Seq<Seq<char>>
    decreases keys.len(),
{
    if keys.len() == 0 {
        seq![k]
    } else if k == keys[0] {
        keys
    } else if lex_lt(k, keys[0]) {
        seq![k] + keys
    } else {
        seq![keys[0]] + spec_insert_key(keys.skip(1), k)
    }
}

/// The markers of the segments from `i` on, sorted and distinct,
/// accumulated onto `acc`.
pub open spec fn spec_marker_keys(segs: Seq<SegV>, i: int, acc: Seq<Seq<char>>) -> Seq<Seq<char>>
    decreases segs.len() - i,
{
    if !(0 <= i < segs.len()) {
        acc
    } else {
        let acc2 = match segs[i] {
            SegV::Replace(k) => spec_insert_key(acc, k),
            SegV::Literal(_) => acc,
        };
        spec_marker_keys(segs, i + 1, acc2)
    }
}

/// The first replacement entry carrying marker `k`, from `i` on,
/// or `-1`.
pub open spec fn spec_key_index(l: Seq<(String, SubcommandConfig)>, k: Seq<char>, i: int) -> int
    decreases l.len() - i,
{
    if !(0 <= i < l.len()) {
        -1
    } else if l[i].0@ == k {
        i
    } else {
        spec_key_index(l, k, i + 1)
    }
}

/// Every command a substitution configuration denotes.
pub open spec fn spec_instantiate_sub(c: SubcommandConfig) -> Seq<Seq<char>>
    decreases c, 1int, 0int,
{
    match c {
        SubcommandConfig::Many(l) => spec_instantiate_list(l@, 0),
        SubcommandConfig::Single(cmd) => spec_instantiate_cmd(cmd),
    }
}

/// The commands of a configuration list, from `i` on, concatenated.
pub open spec fn spec_instantiate_list(l: Seq<CommandConfig>, i: int) -> Seq<Seq<char>>
    decreases l, 0int, l.len() - i,
{
    if !(0 <= i < l.len()) {
        Seq::empty()
    } else {
        spec_instantiate_cmd(l[i]) + spec_instantiate_list(l, i + 1)
    }
}

/// Every command one command configuration denotes: itself, or every
/// expansion of its template.
pub open spec fn spec_instantiate_cmd(c: CommandConfig) -> Seq<Seq<char>>
    decreases c, 1int, 0int,
{
    match c {
        CommandConfig::Command(s) => seq![s@],
        CommandConfig::Template(t) => spec_template_expansion(t),
    }
}

/// A template's expansions: its own segments permuted.
pub open spec fn spec_template_expansion(t: TemplateConfig) -> Seq<Seq<char>>
    decreases t, 3int, 0int,
{
    spec_permutations(t, spec_build_segments(t.template@, replace_keys(t.replace@)))
}

/// The replacement table of a permutation: each sorted marker of the
/// segments paired with the commands its configuration denotes (an
/// unconfigured marker gets none).
pub open spec fn spec_replacers(t: TemplateConfig, keys: Seq<Seq<char>>, j: int) -> Seq<
    (Seq<char>, Seq<Seq<char>>),
>
    decreases t, 1int, keys.len() - j,
{
    if !(0 <= j < keys.len()) {
        Seq::empty()
    } else {
        let idx = spec_key_index(t.replace@, keys[j], 0);
        let vals = if 0 <= idx < t.replace@.len() {
            spec_instantiate_sub(t.replace@[idx].1)
        } else {
            Seq::empty()
        };
        seq![(keys[j], vals)] + spec_replacers(t, keys, j + 1)
    }
}

/// How often permutation index `i` must advance before marker `j`
/// cycles: the product of the value counts of the markers before it.
pub open spec fn spec_weight(reps: Seq<(Seq<char>, Seq<Seq<char>>)>, j: int) -> int
    decreases j,
{
    if j <= 0 {
        1
    } else {
        spec_weight(reps, j - 1) * reps[j - 1].1.len()
    }
}

/// The number of permutations: the product of all value counts.
pub open spec fn spec_total(reps: Seq<(Seq<char>, Seq<Seq<char>>)>) -> int {
    spec_weight(reps, reps.len() as int)
}

/// The replacement entry of marker `k`, from `j` on, or `-1`.
pub open spec fn spec_rep_index(reps: Seq<(Seq<char>, Seq<Seq<char>>)>, k: Seq<char>, j: int) -> int
    decreases reps.len() - j,
{
    if !(0 <= j < reps.len()) {
        -1
    } else if reps[j].0 == k {
        j
    } else {
        spec_rep_index(reps, k, j + 1)
    }
}

/// Permutation `i`, rendered from segment `s` on: literals stand as
/// they are; marker `k` takes value `(i / weight) mod count` of its
/// entry, and nothing when it has no entry or no values.
pub open spec fn spec_render(
    segs: Seq<SegV>,
    reps: Seq<(Seq<char>, Seq<Seq<char>>)>,
    i: int,
    s: int,
) -> Seq<char>
    decreases segs.len() - s,
{
    if !(0 <= s < segs.len()) {
        Seq::empty()
    } else {
        (match segs[s] {
            SegV::Literal(l) => l,
            SegV::Replace(k) => {
                let j = spec_rep_index(reps, k, 0);
                if 0 <= j < reps.len() && reps[j].1.len() > 0 && spec_weight(reps, j) > 0 {
                    reps[j].1[(i / spec_weight(reps, j)) % reps[j].1.len() as int]
                } else {
                    Seq::empty()
                }
            },
        }) + spec_render(segs, reps, i, s + 1)
    }
}

/// Every permutation of the given segments under `t`'s replacements.
pub open spec fn spec_permutations(t: TemplateConfig, segs: Seq<SegV>) -> Seq<Seq<char>>
    decreases t, 2int, 0int,
{
    let reps = spec_replacers(t, spec_marker_keys(segs, 0, Seq::empty()), 0);
    Seq::new(spec_total(reps) as nat, |i: int| spec_render(segs, reps, i, 0))
}

/// Every substitution configuration of a replacement list, from `j`
/// on, can be expanded without overflowing.
pub open spec fn spec_vals_ok(t: TemplateConfig, j: int) -> bool
    decreases t, 1int, t.replace@.len() - j,
{
    if !(0 <= j < t.replace@.len()) {
        true
    } else {
        spec_sub_ok(t.replace@[j].1) && spec_vals_ok(t, j + 1)
    }
}

/// All cycle widths stay within the machine's range, so counting the
/// permutations cannot overflow.
pub open spec fn spec_weights_ok(reps: Seq<(Seq<char>, Seq<Seq<char>>)>) -> bool {
    forall|j: int| 0 <= j <= reps.len() ==> spec_weight(reps, j) <= usize::MAX as int
}

/// A substitution configuration whose whole tree can be expanded:
/// every nested template keeps its permutation arithmetic within the
/// machine's range.
pub open spec fn spec_sub_ok(c: SubcommandConfig) -> bool
    decreases c, 1int, 0int,
{
    match c {
        SubcommandConfig::Many(l) => spec_list_ok(l@, 0),
        SubcommandConfig::Single(cmd) => spec_cmd_ok(cmd),
    }
}

/// Expandability of a configuration list, from `i` on.
pub open spec fn spec_list_ok(l: Seq<CommandConfig>, i: int) -> bool
    decreases l, 0int, l.len() - i,
{
    !(0 <= i < l.len()) || (spec_cmd_ok(l[i]) && spec_list_ok(l, i + 1))
}

/// Expandability of one command configuration.
pub open spec fn spec_cmd_ok(c: CommandConfig) -> bool
    decreases c, 1int, 0int,
{
    match c {
        CommandConfig::Command(_) => true,
        CommandConfig::Template(t) => spec_tpl_ok(t),
    }
}

/// Expandability of a template: its replacement values expand, and
/// its own permutation arithmetic stays in range.
pub open spec fn spec_tpl_ok(t: TemplateConfig) -> bool
    decreases t, 2int, 0int,
{
    &&& spec_vals_ok(t, 0)
    &&& spec_weights_ok(
        spec_replacers(
            t,
            spec_marker_keys(
                spec_build_segments(t.template@, replace_keys(t.replace@)),
                0,
                Seq::empty(),
            ),
            0,
        ),
    )
}

/// The character views of a marker list.
pub open spec fn keys_view(l: Seq<Vec<char>>) -> Seq<Seq<char>> {
    Seq::new(l.len(), |i: int| l[i]@)
}

/// The views of a replacement table.
pub open spec fn reps_view(l: Seq<(Vec<char>, Vec<String>)>) -> Seq<(Seq<char>, Seq<Seq<char>>)> {
    Seq::new(l.len(), |i: int| (l[i].0@, crate::parse::strs_view(l[i].1@)))
}

/// Whether two character vectors are equal.
fn chars_eq(a: &Vec<char>, b: &Vec<char>) -> (r: bool)
    ensures
        r == (a@ == b@),
{
    if a.len() != b.len() {
        proof {
            assert(a@ != b@);
        }
        return false;
    }
    let mut i: usize = 0;
    while i < a.len()
        invariant
            a@.len() == b@.len(),
            i <= a@.len(),
            forall|j: int| 0 <= j < i ==> a@[j] == b@[j],
        decreases a@.len() - i,
    {
        if a[i] != b[i] {
            return false;
        }
        i += 1;
    }
    proof {
        assert(a@ =~= b@);
    }
    true
}

/// Whether a string holds exactly the characters of `v`.
fn str_chars_eq(s: &str, v: &Vec<char>) -> (r: bool)
    ensures
        r == (s@ == v@),
{
    let n = s.unicode_len();
    if n != v.len() {
        proof {
            assert(s@ != v@);
        }
        return false;
    }
    let mut i: usize = 0;
    while i < n
        invariant
            n == s@.len(),
            n == v@.len(),
            i <= n,
            forall|j: int| 0 <= j < i ==> s@[j] == v@[j],
        decreases n - i,
    {
        if s.get_char(i) != v[i] {
            return false;
        }
        i += 1;
    }
    proof {
        assert(s@ =~= v@);
    }
    true
}

/// Strict lexicographic comparison, from position `i` on.
fn lex_less_from(a: &Vec<char>, b: &Vec<char>, i: usize) -> (r: bool)
    ensures
        r == lex_lt_from(a@, b@, i as int),
    decreases a@.len() - i,
{
    if i >= b.len() {
        false
    } else if i >= a.len() {
        true
    } else if (a[i] as u32) < (b[i] as u32) {
        true
    } else if a[i] != b[i] {
        false
    } else {
        lex_less_from(a, b, i + 1)
    }
}

/// Copy the markers from `i` on.
fn copy_suffix(l: &Vec<Vec<char>>, i: usize) -> (r: Vec<Vec<char>>)
    requires
        i <= l@.len(),
    ensures
        keys_view(r@) == keys_view(l@).skip(i as int),
{
    let mut out: Vec<Vec<char>> = Vec::new();
    let mut j: usize = i;
    while j < l.len()
        invariant
            i <= j <= l@.len(),
            out@.len() == j - i,
            forall|m: int| 0 <= m < out@.len() ==> (#[trigger] out@[m])@ == l@[i + m]@,
        decreases l@.len() - j,
    {
        let item = copy_range(&l[j], 0, l[j].len());
        proof {
            assert(item@ =~= l@[j as int]@);
        }
        out.push(item);
        j += 1;
    }
    proof {
        assert(keys_view(out@) =~~= keys_view(l@).skip(i as int));
    }
    out
}

/// Insert marker `k` into the sorted suffix of `l` from `i` on.
fn insert_key_from(l: &Vec<Vec<char>>, i: usize, k: &Vec<char>) -> (r: Vec<Vec<char>>)
    requires
        i <= l@.len(),
    ensures
        keys_view(r@) == spec_insert_key(keys_view(l@).skip(i as int), k@),
    decreases l@.len() - i,
{
    let ghost s = keys_view(l@).skip(i as int);
    if i == l.len() {
        let mut out: Vec<Vec<char>> = Vec::new();
        out.push(copy_range(k, 0, k.len()));
        proof {
            assert(s =~~= Seq::<Seq<char>>::empty());
            assert(keys_view(out@) =~~= seq![k@]);
        }
        out
    } else {
        proof {
            assert(s[0] == l@[i as int]@);
        }
        if chars_eq(k, &l[i]) {
            let out = copy_suffix(l, i);
            proof {
                assert(keys_view(out@) =~~= spec_insert_key(s, k@));
            }
            out
        } else if lex_less_from(k, &l[i], 0) {
            let mut out: Vec<Vec<char>> = Vec::new();
            out.push(copy_range(k, 0, k.len()));
            let mut suffix = copy_suffix(l, i);
            out.append(&mut suffix);
            proof {
                assert(keys_view(out@) =~~= seq![k@] + s);
            }
            out
        } else {
            let mut out: Vec<Vec<char>> = Vec::new();
            out.push(copy_range(&l[i], 0, l[i].len()));
            let mut rest = insert_key_from(l, i + 1, k);
            out.append(&mut rest);
            proof {
                assert(keys_view(l@).skip(i + 1) =~~= s.skip(1));
                assert(keys_view(out@) =~~= seq![s[0]] + spec_insert_key(s.skip(1), k@));
            }
            out
        }
    }
}

/// The sorted, distinct markers of a segment list.
fn collect_keys(segments: &Vec<Segment>) -> (r: Vec<Vec<char>>)
    ensures
        keys_view(r@) == spec_marker_keys(segs_view(segments@), 0, Seq::empty()),
{
    let ghost sv = segs_view(segments@);
    let mut acc: Vec<Vec<char>> = Vec::new();
    proof {
        assert(keys_view(acc@) =~~= Seq::<Seq<char>>::empty());
    }
    let mut i: usize = 0;
    while i < segments.len()
        invariant
            sv == segs_view(segments@),
            sv.len() == segments@.len(),
            i <= segments@.len(),
            spec_marker_keys(sv, i as int, keys_view(acc@)) == spec_marker_keys(
                sv,
                0,
                Seq::empty(),
            ),
        decreases segments@.len() - i,
    {
        proof {
            assert(sv[i as int] == segments@[i as int]@);
        }
        match &segments[i] {
            Segment::Replace(kstr) => {
                let kv = str_to_char_vec(kstr.as_str());
                let next = insert_key_from(&acc, 0, &kv);
                proof {
                    assert(keys_view(acc@).skip(0) =~~= keys_view(acc@));
                }
                acc = next;
            },
            Segment::Literal(_) => {},
        }
        i += 1;
    }
    acc
}

/// Structural height of a substitution configuration.
pub open spec fn sub_height(c: SubcommandConfig) -> nat
    decreases c, 1int, 0int,
{
    match c {
        SubcommandConfig::Many(l) => 1 + list_height(l@, 0),
        SubcommandConfig::Single(cmd) => 1 + cmd_height(cmd),
    }
}

/// Height of a configuration list, from `i` on.
pub open spec fn list_height(l: Seq<CommandConfig>, i: int) -> nat
    decreases l, 0int, l.len() - i,
{
    if !(0 <= i < l.len()) {
        0
    } else {
        let h = cmd_height(l[i]);
        let rest = list_height(l, i + 1);
        1 + (if h > rest {
            h
        } else {
            rest
        })
    }
}

/// Structural height of one command configuration.
pub open spec fn cmd_height(c: CommandConfig) -> nat
    decreases c, 1int, 0int,
{
    match c {
        CommandConfig::Command(_) => 0,
        CommandConfig::Template(t) => 1 + tpl_height(t),
    }
}

/// Structural height of a template.
pub open spec fn tpl_height(t: TemplateConfig) -> nat
    decreases t, 2int, 0int,
{
    1 + vals_height(t, 0)
}

/// Height of a template's replacement values, from `j` on.
pub open spec fn vals_height(t: TemplateConfig, j: int) -> nat
    decreases t, 1int, t.replace@.len() - j,
{
    if !(0 <= j < t.replace@.len()) {
        0
    } else {
        let h = sub_height(t.replace@[j].1);
        let rest = vals_height(t, j + 1);
        1 + (if h > rest {
            h
        } else {
            rest
        })
    }
}

proof fn lemma_list_height_elem(l: Seq<CommandConfig>, i: int, j: int)
    requires
        0 <= i <= j < l.len(),
    ensures
        cmd_height(l[j]) < list_height(l, i),
    decreases j - i,
{
    if i < j {
        lemma_list_height_elem(l, i + 1, j);
    }
}

proof fn lemma_vals_height_elem(t: TemplateConfig, i: int, j: int)
    requires
        0 <= i <= j < t.replace@.len(),
    ensures
        sub_height(t.replace@[j].1) < vals_height(t, i),
    decreases j - i,
{
    if i < j {
        lemma_vals_height_elem(t, i + 1, j);
    }
}

/// Every replacement value of a template with `spec_vals_ok` can be
/// expanded.
proof fn lemma_vals_ok(t: TemplateConfig, j: int)
    requires
        spec_vals_ok(t, 0),
        0 <= j < t.replace@.len(),
    ensures
        spec_sub_ok(t.replace@[j].1),
{
    lemma_vals_ok_from(t, 0, j);
}

proof fn lemma_vals_ok_from(t: TemplateConfig, i: int, j: int)
    requires
        spec_vals_ok(t, i),
        0 <= i <= j < t.replace@.len(),
    ensures
        spec_sub_ok(t.replace@[j].1),
    decreases j - i,
{
    if i < j {
        lemma_vals_ok_from(t, i + 1, j);
    }
}

/// The first replacement entry carrying marker `k`, if any.
fn find_replace_from(l: &Vec<(String, SubcommandConfig)>, k: &Vec<char>, i: usize) -> (r: Option<
    usize,
>)
    requires
        i <= l@.len(),
    ensures
        match r {
            Some(m) => spec_key_index(l@, k@, i as int) == m as int && m < l@.len(),
            None => spec_key_index(l@, k@, i as int) == -1,
        },
    decreases l@.len() - i,
{
    if i >= l.len() {
        return None;
    }
    if str_chars_eq(l[i].0.as_str(), k) {
        return Some(i);
    }
    find_replace_from(l, k, i + 1)
}

/// The replacement-table entry of marker `k`, if any.
fn find_rep_from(reps: &Vec<(Vec<char>, Vec<String>)>, k: &Vec<char>, j: usize) -> (r: Option<
    usize,
>)
    requires
        j <= reps@.len(),
    ensures
        match r {
            Some(m) => spec_rep_index(reps_view(reps@), k@, j as int) == m as int && m
                < reps@.len(),
            None => spec_rep_index(reps_view(reps@), k@, j as int) == -1,
        },
    decreases reps@.len() - j,
{
    if j >= reps.len() {
        return None;
    }
    proof {
        assert(reps_view(reps@)[j as int].0 == reps@[j as int].0@);
    }
    if chars_eq(&reps[j].0, k) {
        return Some(j);
    }
    find_rep_from(reps, k, j + 1)
}

impl SubcommandConfig {
    /// Every command this configuration denotes, in order: a plain
    /// command stands for itself, a template for each of its
    /// expansions.
    pub fn instantiate(&self) -> (r: Vec<String>)
        requires
            spec_sub_ok(*self),
        ensures
            strs_view(r@) == spec_instantiate_sub(*self),
        decreases sub_height(*self),
    {
        match self {
            SubcommandConfig::Many(l) => {
                let mut out: Vec<String> = Vec::new();
                proof {
                    assert(strs_view(out@) =~~= Seq::<Seq<char>>::empty());
                }
                let mut i: usize = 0;
                while i < l.len()
                    invariant
                        *self == SubcommandConfig::Many(*l),
                        i <= l@.len(),
                        spec_list_ok(l@, i as int),
                        strs_view(out@) + spec_instantiate_list(l@, i as int)
                            == spec_instantiate_list(l@, 0),
                    decreases l@.len() - i,
                {
                    let ghost out0 = out@;
                    proof {
                        lemma_list_height_elem(l@, 0, i as int);
                    }
                    let mut part = instantiate_cmd(&l[i]);
                    let ghost partv = part@;
                    out.append(&mut part);
                    proof {
                        assert(strs_view(out@) =~~= strs_view(out0) + strs_view(partv));
                        assert(strs_view(out@) + spec_instantiate_list(l@, i + 1)
                            =~~= strs_view(out0) + spec_instantiate_list(l@, i as int));
                    }
                    i += 1;
                }
                proof {
                    assert(spec_instantiate_list(l@, l@.len() as int) =~~= Seq::<Seq<char>>::empty());
                    assert(strs_view(out@) =~~= strs_view(out@) + spec_instantiate_list(
                        l@,
                        l@.len() as int,
                    ));
                }
                out
            },
            SubcommandConfig::Single(c) => instantiate_cmd(c),
        }
    }
}

/// Every command one command configuration denotes.
fn instantiate_cmd(c: &CommandConfig) -> (r: Vec<String>)
    requires
        spec_cmd_ok(*c),
    ensures
        strs_view(r@) == spec_instantiate_cmd(*c),
    decreases cmd_height(*c),
{
    match c {
        CommandConfig::Command(s) => {
            let mut out: Vec<String> = Vec::new();
            out.push(s.clone());
            proof {
                assert(strs_view(out@) =~~= seq![s@]);
            }
            out
        },
        CommandConfig::Template(t) => {
            let segs = Segment::build_from_template(t);
            permutate_segments(t, &segs)
        },
    }
}

/// Every permutation of the template's substitutions over the given
/// segments, ordered by cycling the markers in marker order, the
/// first marker fastest.
pub fn permutate_segments(template: &TemplateConfig, segments: &Vec<Segment>) -> (r: Vec<String>)
    requires
        spec_vals_ok(*template, 0),
        spec_weights_ok(
            spec_replacers(
                *template,
                spec_marker_keys(segs_view(segments@), 0, Seq::empty()),
                0,
            ),
        ),
    ensures
        strs_view(r@) == spec_permutations(*template, segs_view(segments@)),
    decreases tpl_height(*template),
{
    let ghost segsv = segs_view(segments@);
    let keys = collect_keys(segments);
    let ghost keysv = keys_view(keys@);
    let ghost repsv = spec_replacers(*template, keysv, 0);
    let mut reps: Vec<(Vec<char>, Vec<String>)> = Vec::new();
    proof {
        assert(reps_view(reps@) =~~= Seq::<(Seq<char>, Seq<Seq<char>>)>::empty());
    }
    let mut j: usize = 0;
    while j < keys.len()
        invariant
            spec_vals_ok(*template, 0),
            keysv == keys_view(keys@),
            keysv.len() == keys@.len(),
            j <= keys@.len(),
            reps_view(reps@) + spec_replacers(*template, keysv, j as int) == spec_replacers(
                *template,
                keysv,
                0,
            ),
        decreases keys@.len() - j,
    {
        let ghost reps0 = reps_view(reps@);
        proof {
            assert(keysv[j as int] == keys@[j as int]@);
        }
        let vals: Vec<String> = match find_replace_from(&template.replace, &keys[j], 0) {
            Some(m) => {
                proof {
                    lemma_vals_ok(*template, m as int);
                    lemma_vals_height_elem(*template, 0, m as int);
                }
                template.replace[m].1.instantiate()
            },
            None => Vec::new(),
        };
        let kcopy = copy_range(&keys[j], 0, keys[j].len());
        proof {
            assert(kcopy@ =~= keysv[j as int]);
        }
        reps.push((kcopy, vals));
        proof {
            let idx = spec_key_index(template.replace@, keysv[j as int], 0);
            let valsv: Seq<Seq<char>> = if 0 <= idx < template.replace@.len() {
                spec_instantiate_sub(template.replace@[idx].1)
            } else {
                Seq::empty()
            };
            assert(strs_view(vals@) =~~= valsv);
            assert(reps_view(reps@) =~~= reps0.push((keysv[j as int], valsv)));
            assert(reps_view(reps@) + spec_replacers(*template, keysv, j + 1) =~~= spec_replacers(
                *template,
                keysv,
                0,
            ));
        }
        j += 1;
    }
    proof {
        assert(spec_replacers(*template, keysv, keys@.len() as int)
            =~~= Seq::<(Seq<char>, Seq<Seq<char>>)>::empty());
        assert(reps_view(reps@) =~~= repsv);
    }
    let mut weights: Vec<usize> = Vec::new();
    let mut w: usize = 1;
    let mut q: usize = 0;
    while q < reps.len()
        invariant
            reps_view(reps@) == repsv,
            repsv.len() == reps@.len(),
            spec_weights_ok(repsv),
            q <= reps@.len(),
            weights@.len() == q,
            forall|m: int| 0 <= m < q ==> (#[trigger] weights@[m]) as int == spec_weight(repsv, m),
            w as int == spec_weight(repsv, q as int),
        decreases reps@.len() - q,
    {
        weights.push(w);
        let cnt = reps[q].1.len();
        proof {
            assert(repsv[q as int].1 == strs_view(reps@[q as int].1@));
            assert(repsv[q as int].1.len() == cnt);
            assert(spec_weight(repsv, q + 1) == spec_weight(repsv, q as int) * repsv[q as int].1.len());
            assert(spec_weight(repsv, q + 1) <= usize::MAX as int);
        }
        w = w * cnt;
        q += 1;
    }
    let total = w;
    let mut out: Vec<String> = Vec::new();
    let mut i: usize = 0;
    while i < total
        invariant
            segsv == segs_view(segments@),
            segsv.len() == segments@.len(),
            reps_view(reps@) == repsv,
            repsv.len() == reps@.len(),
            weights@.len() == reps@.len(),
            forall|m: int| 0 <= m < weights@.len() ==> (#[trigger] weights@[m]) as int
                == spec_weight(repsv, m),
            total as int == spec_total(repsv),
            i <= total,
            out@.len() == i,
            forall|m: int| 0 <= m < i ==> (#[trigger] out@[m])@ == spec_render(segsv, repsv, m, 0),
        decreases total - i,
    {
        let mut buf: Vec<char> = Vec::new();
        let mut s: usize = 0;
        while s < segments.len()
            invariant
                segsv == segs_view(segments@),
                segsv.len() == segments@.len(),
                reps_view(reps@) == repsv,
                repsv.len() == reps@.len(),
                weights@.len() == reps@.len(),
                forall|m: int| 0 <= m < weights@.len() ==> (#[trigger] weights@[m]) as int
                    == spec_weight(repsv, m),
                s <= segments@.len(),
                buf@ + spec_render(segsv, repsv, i as int, s as int) == spec_render(
                    segsv,
                    repsv,
                    i as int,
                    0,
                ),
            decreases segments@.len() - s,
        {
            let ghost buf0 = buf@;
            proof {
                assert(segsv[s as int] == segments@[s as int]@);
            }
            match &segments[s] {
                Segment::Literal(l) => {
                    crate::text::push_str_chars(l.as_str(), &mut buf);
                },
                Segment::Replace(kstr) => {
                    let kv = str_to_char_vec(kstr.as_str());
                    match find_rep_from(&reps, &kv, 0) {
                        Some(jj) => {
                            let cnt = reps[jj].1.len();
                            let wj = weights[jj];
                            proof {
                                assert(repsv[jj as int].1 == strs_view(reps@[jj as int].1@));
                                assert(repsv[jj as int].1.len() == cnt);
                            }
                            if cnt > 0 && wj > 0 {
                                let pick = (i / wj) % cnt;
                                crate::text::push_str_chars(reps[jj].1[pick].as_str(), &mut buf);
                                proof {
                                    let pv = reps@[jj as int].1@[pick as int]@;
                                    assert(repsv[jj as int].1[pick as int] == pv);
                                }
                            }
                        },
                        None => {},
                    }
                },
            }
            proof {
                assert(buf@ + spec_render(segsv, repsv, i as int, s + 1) =~= spec_render(
                    segsv,
                    repsv,
                    i as int,
                    0,
                ));
            }
            s += 1;
        }
        proof {
            assert(spec_render(segsv, repsv, i as int, segments@.len() as int)
                =~= Seq::<char>::empty());
            assert(buf@ =~= spec_render(segsv, repsv, i as int, 0));
        }
        out.push(chars_to_string(&buf));
        i += 1;
    }
    proof {
        assert(strs_view(out@) =~~= Seq::new(
            spec_total(repsv) as nat,
            |m: int| spec_render(segsv, repsv, m, 0),
        ));
        assert(strs_view(out@) =~~= spec_permutations(*template, segsv));
    }
    out
}

/// Interleaving `pieces` from `i` equals interleaving the suffix the
/// same pieces form, when the tails agree.
proof fn lemma_interleave_shift(pieces: Seq<Seq<char>>, rest: Seq<Seq<char>>, key: Seq<char>, d: int)
    requires
        0 <= d,
        pieces.len() == rest.len() + d,
        forall|k: int| 0 <= k < rest.len() ==> pieces[k + d] == rest[k],
    ensures
        spec_interleave(pieces, key, d) == spec_interleave(rest, key, 0),
    decreases rest.len(),
{
    lemma_interleave_shift_at(pieces, rest, key, d, 0);
}

proof fn lemma_interleave_shift_at(
    pieces: Seq<Seq<char>>,
    rest: Seq<Seq<char>>,
    key: Seq<char>,
    d: int,
    k: int,
)
    requires
        0 <= d,
        0 <= k,
        pieces.len() == rest.len() + d,
        forall|j: int| 0 <= j < rest.len() ==> pieces[j + d] == rest[j],
    ensures
        spec_interleave(pieces, key, k + d) == spec_interleave(rest, key, k),
    decreases rest.len() - k,
{
    if 0 <= k < rest.len() {
        lemma_interleave_shift_at(pieces, rest, key, d, k + 1);
        assert(pieces[k + d] == rest[k]);
    }
}

} // verus!
