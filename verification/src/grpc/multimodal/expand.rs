//! Expansion of placeholder tokens.
//!
//! A prompt carries one placeholder token per media item. Expansion replaces
//! each by the tokens its item stands for, and records where those ended up.

use crate::grpc::multimodal::types::{PlaceholderRange, PromptReplacement};
use vstd::prelude::*;

verus! {

/// Output of token expansion, containing both full structural and patch-only ranges.
pub struct ExpandedTokens {
    /// The expanded token ID sequence.
    pub token_ids: Vec<u32>,
    /// Full structural placeholder ranges covering the entire replacement,
    /// structural tokens too.
    pub placeholders: Vec<PlaceholderRange>,
    /// Patch-only ranges: contiguous runs of the patch token within each
    /// expansion. `None` when there is no patch token.
    pub patch_offsets: Option<Vec<(u32, u32)>>,
}

impl PromptReplacement {
    /// The replacement's tokens, as they stand in a prompt.
    pub open spec fn spelled(&self) -> Seq<u32> {
        self.tokens@.map_values(|t: i32| t as u32)
    }
}

/// How many tokens of `tokens` are the placeholder `id`.
pub open spec fn placeholder_count(tokens: Seq<u32>, id: u32) -> nat
    decreases tokens.len(),
{
    if tokens.len() == 0 {
        0
    } else {
        placeholder_count(tokens.drop_last(), id) + if tokens.last() == id {
            1nat
        } else {
            0nat
        }
    }
}

/// What the last token of `tokens` becomes: the n-th placeholder becomes the
/// n-th replacement; any other token, and a placeholder for which there is no
/// replacement left, stays.
pub open spec fn last_expanded(
    tokens: Seq<u32>,
    id: u32,
    replacements: Seq<PromptReplacement>,
) -> Seq<u32>
    recommends
        tokens.len() > 0,
{
    let n = placeholder_count(tokens.drop_last(), id) as int;
    if tokens.last() == id && n < replacements.len() {
        replacements[n].spelled()
    } else {
        seq![tokens.last()]
    }
}

/// The prompt after expansion.
pub open spec fn expansion(
    tokens: Seq<u32>,
    id: u32,
    replacements: Seq<PromptReplacement>,
) -> Seq<u32>
    decreases tokens.len(),
{
    if tokens.len() == 0 {
        Seq::empty()
    } else {
        expansion(tokens.drop_last(), id, replacements) + last_expanded(tokens, id, replacements)
    }
}

/// Where the replacements stand in the prompt after expansion.
pub open spec fn ranges(
    tokens: Seq<u32>,
    id: u32,
    replacements: Seq<PromptReplacement>,
) -> Seq<(int, int)>
    decreases tokens.len(),
{
    if tokens.len() == 0 {
        Seq::empty()
    } else {
        let front = tokens.drop_last();
        let n = placeholder_count(front, id) as int;
        let before = ranges(front, id, replacements);
        if tokens.last() == id && n < replacements.len() {
            before.push(
                (
                    expansion(front, id, replacements).len() as int,
                    replacements[n].spelled().len() as int,
                ),
            )
        } else {
            before
        }
    }
}

/// The maximal runs of `patch` in `s`, as offset and length, left to right.
pub open spec fn runs(s: Seq<u32>, patch: u32) -> Seq<(int, int)>
    decreases s.len(),
{
    if s.len() == 0 {
        Seq::empty()
    } else {
        let front = s.drop_last();
        let before = runs(front, patch);
        if s.last() != patch {
            before
        } else if front.len() > 0 && front.last() == patch {
            before.drop_last().push((before.last().0, before.last().1 + 1))
        } else {
            before.push((front.len() as int, 1))
        }
    }
}

/// `list` moved by `by` positions.
pub open spec fn moved(list: Seq<(int, int)>, by: int) -> Seq<(int, int)> {
    list.map_values(|r: (int, int)| (r.0 + by, r.1))
}

/// Where runs of `patch` stand inside the replacements.
pub open spec fn patch_ranges(
    tokens: Seq<u32>,
    id: u32,
    patch: u32,
    replacements: Seq<PromptReplacement>,
) -> Seq<(int, int)>
    decreases tokens.len(),
{
    if tokens.len() == 0 {
        Seq::empty()
    } else {
        let front = tokens.drop_last();
        let n = placeholder_count(front, id) as int;
        let before = patch_ranges(front, id, patch, replacements);
        if tokens.last() == id && n < replacements.len() {
            before + moved(
                runs(replacements[n].spelled(), patch),
                expansion(front, id, replacements).len() as int,
            )
        } else {
            before
        }
    }
}

/// The mathematical values of a list of ranges.
pub open spec fn range_values(v: Seq<PlaceholderRange>) -> Seq<(int, int)> {
    v.map_values(|r: PlaceholderRange| (r.offset as int, r.length as int))
}

/// The mathematical values of a list of pairs.
pub open spec fn pair_values(v: Seq<(u32, u32)>) -> Seq<(int, int)> {
    v.map_values(|r: (u32, u32)| (r.0 as int, r.1 as int))
}

/// Appends the runs of `patch` among `tokens`, which stand at `offset`, to
/// `offsets`.
fn push_runs(offsets: &mut Vec<(u32, u32)>, tokens: &Vec<i32>, patch: u32, offset: usize)
    requires
        offset + tokens@.len() <= u32::MAX,
    ensures
        pair_values(final(offsets)@) == pair_values(old(offsets)@) + moved(
            runs(tokens@.map_values(|t: i32| t as u32), patch),
            offset as int,
        ),
{
    let ghost spelled = tokens@.map_values(|t: i32| t as u32);
    let ghost start = offsets@;
    let mut run_start: Option<u32> = None;
    let mut i: usize = 0;
    proof {
        assert(spelled.take(0) =~= Seq::<u32>::empty());
        assert(moved(runs(spelled.take(0), patch), offset as int) =~= Seq::<(int, int)>::empty());
        assert(pair_values(start) + Seq::<(int, int)>::empty() =~= pair_values(start));
    }
    while i < tokens.len()
        invariant
            i <= tokens@.len(),
            offset + tokens@.len() <= u32::MAX,
            spelled == tokens@.map_values(|t: i32| t as u32),
            run_start is Some <==> (i > 0 && spelled[i - 1] == patch),
            match run_start {
                Some(s) => {
                    &&& offset <= s < offset + i
                    &&& pair_values(start) + moved(
                        runs(spelled.take(i as int), patch),
                        offset as int,
                    ) == pair_values(offsets@).push((s as int, offset + i - s))
                },
                None => pair_values(start) + moved(
                    runs(spelled.take(i as int), patch),
                    offset as int,
                ) == pair_values(offsets@),
            },
        decreases tokens@.len() - i,
    {
        let pos: u32 = (offset + i) as u32;
        let ghost before = runs(spelled.take(i as int), patch);
        let ghost after = runs(spelled.take(i + 1), patch);
        proof {
            assert(spelled.take(i + 1).drop_last() =~= spelled.take(i as int));
            assert(spelled.take(i + 1).last() == spelled[i as int]);
            if i > 0 {
                assert(spelled.take(i as int).last() == spelled[i - 1]);
            }
        }
        if tokens[i] as u32 == patch {
            if run_start.is_none() {
                run_start = Some(pos);
                proof {
                    assert(moved(after, offset as int) =~= moved(before, offset as int).push(
                        (offset + i, 1),
                    ));
                    assert(pair_values(start) + moved(after, offset as int) =~= (pair_values(
                        start,
                    ) + moved(before, offset as int)).push((offset + i, 1)));
                }
            } else {
                proof {
                    let s = run_start->0;
                    lemma_runs_last(spelled.take(i as int), patch);
                    let b = moved(before, offset as int);
                    let a = moved(after, offset as int);
                    assert(a =~= b.drop_last().push((b.last().0, b.last().1 + 1)));
                    let whole = pair_values(start) + b;
                    assert(whole.last() == b.last());
                    assert(whole.last() == (s as int, offset + i - s));
                    assert(pair_values(start) + a =~= whole.drop_last().push(
                        (s as int, offset + i + 1 - s),
                    ));
                    assert(whole.drop_last() =~= pair_values(offsets@));
                }
            }
        } else if let Some(s) = run_start {
            let ghost o = offsets@;
            offsets.push((s, pos - s));
            run_start = None;
            proof {
                assert(pair_values(offsets@) =~= pair_values(o).push(
                    (s as int, offset + i - s),
                ));
            }
        }
        i += 1;
    }
    proof {
        assert(spelled.take(tokens@.len() as int) =~= spelled);
    }
    if let Some(s) = run_start {
        let ghost o = offsets@;
        offsets.push((s, (offset + tokens.len()) as u32 - s));
        proof {
            assert(pair_values(offsets@) =~= pair_values(o).push(
                (s as int, offset + tokens@.len() - s),
            ));
        }
    }
}

/// A sequence that ends in `patch` has a run.
proof fn lemma_runs_last(s: Seq<u32>, patch: u32)
    requires
        s.len() > 0,
        s.last() == patch,
    ensures
        runs(s, patch).len() > 0,
{
}

/// `r` is the expansion of a prompt.
pub open spec fn expands_to(
    tokens: Seq<u32>,
    placeholder: Option<u32>,
    patch: Option<u32>,
    replacements: Seq<PromptReplacement>,
    r: ExpandedTokens,
) -> bool {
    match placeholder {
        None => {
            &&& r.token_ids@ == tokens
            &&& r.placeholders@ == Seq::<PlaceholderRange>::empty()
            &&& r.patch_offsets is None
        },
        Some(id) => {
            &&& r.token_ids@ == expansion(tokens, id, replacements)
            &&& range_values(r.placeholders@) == ranges(tokens, id, replacements)
            &&& (r.patch_offsets is Some <==> patch is Some)
            &&& (patch is Some ==> pair_values(r.patch_offsets->0@) == patch_ranges(
                tokens,
                id,
                patch->0,
                replacements,
            ))
        },
    }
}

/// Expand placeholder tokens in the token ID sequence.
///
/// The n-th occurrence of `placeholder_token_id` becomes the tokens of the
/// n-th replacement; occurrences beyond the last replacement are left in
/// place. Without a placeholder id nothing is expanded.
pub fn expand_tokens(
    token_ids: &Vec<u32>,
    placeholder_token_id: Option<u32>,
    im_token_id: Option<u32>,
    replacements: &Vec<PromptReplacement>,
) -> (r: ExpandedTokens)
    requires
        placeholder_token_id is Some && im_token_id is Some ==> expansion(
            token_ids@,
            placeholder_token_id->0,
            replacements@,
        ).len() <= u32::MAX,
    ensures
        expands_to(token_ids@, placeholder_token_id, im_token_id, replacements@, r),
{
    let placeholder_id: u32 = match placeholder_token_id {
        Some(id) => id,
        None => {
            let mut same: Vec<u32> = Vec::new();
            same.extend_from_slice(token_ids.as_slice());
            assert(same@ =~= token_ids@);
            return ExpandedTokens {
                token_ids: same,
                placeholders: Vec::new(),
                patch_offsets: None,
            };
        },
    };

    let mut expanded: Vec<u32> = Vec::with_capacity(token_ids.len());
    let mut placeholders: Vec<PlaceholderRange> = Vec::new();
    let mut patches: Vec<(u32, u32)> = Vec::new();
    let mut replacement_idx: usize = 0;
    let mut i: usize = 0;
    proof {
        assert(token_ids@.take(0) =~= Seq::<u32>::empty());
        assert(range_values(placeholders@) =~= Seq::<(int, int)>::empty());
        assert(pair_values(patches@) =~= Seq::<(int, int)>::empty());
    }
    while i < token_ids.len()
        invariant
            i <= token_ids@.len(),
            im_token_id is Some ==> expansion(token_ids@, placeholder_id, replacements@).len()
                <= u32::MAX,
            replacement_idx as int == if placeholder_count(
                token_ids@.take(i as int),
                placeholder_id,
            ) < replacements@.len() {
                placeholder_count(token_ids@.take(i as int), placeholder_id) as int
            } else {
                replacements@.len() as int
            },
            expanded@ == expansion(token_ids@.take(i as int), placeholder_id, replacements@),
            range_values(placeholders@) == ranges(
                token_ids@.take(i as int),
                placeholder_id,
                replacements@,
            ),
            im_token_id is Some ==> pair_values(patches@) == patch_ranges(
                token_ids@.take(i as int),
                placeholder_id,
                im_token_id->0,
                replacements@,
            ),
        decreases token_ids@.len() - i,
    {
        let token: u32 = token_ids[i];
        let ghost next = token_ids@.take(i + 1);
        proof {
            assert(next.drop_last() =~= token_ids@.take(i as int));
            assert(next.last() == token);
            lemma_expansion_grows(token_ids@, placeholder_id, replacements@, i + 1);
        }
        if token == placeholder_id && replacement_idx < replacements.len() {
            let repl = &replacements[replacement_idx];
            let offset: usize = expanded.len();
            assert(expansion(next, placeholder_id, replacements@).len() == offset
                + repl.tokens@.len());
            if let Some(im_id) = im_token_id {
                push_runs(&mut patches, &repl.tokens, im_id, offset);
            }
            let mut j: usize = 0;
            assert(expanded@ + repl.spelled().take(0) =~= expanded@);
            let ghost base = expanded@;
            while j < repl.tokens.len()
                invariant
                    j <= repl.tokens@.len(),
                    expanded@ == base + repl.spelled().take(j as int),
                decreases repl.tokens@.len() - j,
            {
                expanded.push(repl.tokens[j] as u32);
                assert(base + repl.spelled().take(j + 1) =~= (base + repl.spelled().take(
                    j as int,
                )).push(repl.spelled()[j as int]));
                j += 1;
            }
            assert(repl.spelled().take(repl.tokens@.len() as int) =~= repl.spelled());
            let ghost old_ranges = placeholders@;
            placeholders.push(PlaceholderRange { offset, length: repl.tokens.len() });
            assert(range_values(placeholders@) =~= range_values(old_ranges).push(
                (offset as int, repl.tokens@.len() as int),
            ));
            replacement_idx += 1;
        } else {
            expanded.push(token);
            assert(expanded@ =~= expansion(next.drop_last(), placeholder_id, replacements@)
                + seq![token]);
        }
        i += 1;
    }
    assert(token_ids@.take(token_ids@.len() as int) =~= token_ids@);
    let patch_offsets: Option<Vec<(u32, u32)>> = match im_token_id {
        Some(_) => Some(patches),
        None => None,
    };
    ExpandedTokens { token_ids: expanded, placeholders, patch_offsets }
}

/// A shorter prompt never expands to more tokens.
proof fn lemma_expansion_grows(
    tokens: Seq<u32>,
    id: u32,
    replacements: Seq<PromptReplacement>,
    n: int,
)
    requires
        0 <= n <= tokens.len(),
    ensures
        expansion(tokens.take(n), id, replacements).len() <= expansion(
            tokens,
            id,
            replacements,
        ).len(),
    decreases tokens.len() - n,
{
    if n < tokens.len() {
        lemma_expansion_grows(tokens, id, replacements, n + 1);
        assert(tokens.take(n + 1).drop_last() =~= tokens.take(n));
    } else {
        assert(tokens.take(n) =~= tokens);
    }
}

/// The runs are the maximal stretches of the patch token: each holds nothing
/// else and is bounded on both sides, they stand apart in order, and every
/// patch token is in one.
pub proof fn runs_are_maximal(s: Seq<u32>, patch: u32)
    ensures
        forall|i: int|
            0 <= i < runs(s, patch).len() ==> {
                let (offset, length) = #[trigger] runs(s, patch)[i];
                &&& 0 <= offset
                &&& 0 < length
                &&& offset + length <= s.len()
                &&& forall|p: int| offset <= p < offset + length ==> s[p] == patch
                &&& offset == 0 || s[offset - 1] != patch
                &&& offset + length == s.len() || s[offset + length] != patch
            },
        forall|i: int, j: int|
            0 <= i < j < runs(s, patch).len() ==> (#[trigger] runs(s, patch)[i]).0 + runs(
                s,
                patch,
            )[i].1 < (#[trigger] runs(s, patch)[j]).0,
        forall|p: int|
            0 <= p < s.len() && s[p] == patch ==> exists|i: int|
                0 <= i < runs(s, patch).len() && (#[trigger] runs(s, patch)[i]).0 <= p < runs(
                    s,
                    patch,
                )[i].0 + runs(s, patch)[i].1,
    decreases s.len(),
{
    if s.len() > 0 {
        let front = s.drop_last();
        let before = runs(front, patch);
        let after = runs(s, patch);
        runs_are_maximal(front, patch);
        assert forall|p: int| 0 <= p < front.len() implies front[p] == s[p] by {}
        if s.last() == patch && front.len() > 0 && front.last() == patch {
            let w = choose|i: int|
                0 <= i < before.len() && (#[trigger] before[i]).0 <= front.len() - 1 < before[i].0
                    + before[i].1;
            assert(before[w].0 + before[w].1 == front.len());
            assert(w == before.len() - 1) by {
                if w < before.len() - 1 {
                    assert(before[w].0 + before[w].1 < before[before.len() - 1].0);
                }
            }
            assert(after.len() == before.len());
            assert forall|i: int| 0 <= i < after.len() - 1 implies after[i] == before[i] by {}
        } else if s.last() == patch {
            assert forall|i: int| 0 <= i < before.len() implies after[i] == before[i] by {}
            assert forall|i: int| 0 <= i < before.len() implies before[i].0 + before[i].1
                < front.len() by {
                if before[i].0 + before[i].1 == front.len() {
                    assert(front[front.len() - 1] == patch);
                }
            }
        }
        assert forall|p: int| 0 <= p < s.len() && s[p] == patch implies exists|i: int|
            0 <= i < after.len() && (#[trigger] after[i]).0 <= p < after[i].0 + after[i].1 by {
            if p == s.len() - 1 {
                assert(after[after.len() - 1].0 <= p);
            } else {
                assert(front[p] == patch);
                let i = choose|i: int|
                    0 <= i < before.len() && (#[trigger] before[i]).0 <= p < before[i].0
                        + before[i].1;
                assert(after[i].0 <= p < after[i].0 + after[i].1);
            }
        }
    }
}

/// Each range of the expanded prompt holds exactly the replacement it was
/// recorded for; as many placeholders are expanded as there are replacements,
/// or all of them if there are fewer; and ranges follow one another.
pub proof fn placeholders_hold_replacements(
    tokens: Seq<u32>,
    id: u32,
    replacements: Seq<PromptReplacement>,
)
    ensures
        ranges(tokens, id, replacements).len() == if placeholder_count(tokens, id)
            < replacements.len() {
            placeholder_count(tokens, id)
        } else {
            replacements.len()
        },
        forall|n: int|
            0 <= n < ranges(tokens, id, replacements).len() ==> {
                let (offset, length) = #[trigger] ranges(tokens, id, replacements)[n];
                &&& 0 <= offset
                &&& 0 <= length
                &&& offset + length <= expansion(tokens, id, replacements).len()
                &&& expansion(tokens, id, replacements).subrange(offset, offset + length)
                    == replacements[n].spelled()
            },
        forall|m: int, n: int|
            0 <= m < n < ranges(tokens, id, replacements).len() ==> (#[trigger] ranges(
                tokens,
                id,
                replacements,
            )[m]).0 + ranges(tokens, id, replacements)[m].1 <= (#[trigger] ranges(
                tokens,
                id,
                replacements,
            )[n]).0,
    decreases tokens.len(),
{
    if tokens.len() > 0 {
        let front = tokens.drop_last();
        placeholders_hold_replacements(front, id, replacements);
        let before = ranges(front, id, replacements);
        let after = ranges(tokens, id, replacements);
        let e0 = expansion(front, id, replacements);
        let e1 = expansion(tokens, id, replacements);
        assert forall|n: int| 0 <= n < after.len() implies {
            let (offset, length) = #[trigger] after[n];
            &&& 0 <= offset
            &&& 0 <= length
            &&& offset + length <= e1.len()
            &&& e1.subrange(offset, offset + length) == replacements[n].spelled()
        } by {
            let (offset, length) = after[n];
            if n < before.len() {
                assert(after[n] == before[n]);
                assert(e1.subrange(offset, offset + length) =~= e0.subrange(
                    offset,
                    offset + length,
                ));
            } else {
                assert(e1.subrange(offset, offset + length) =~= replacements[n].spelled());
            }
        }
    }
}

/// A prompt without the placeholder token is left as it is.
pub proof fn expansion_without_placeholders(
    tokens: Seq<u32>,
    id: u32,
    replacements: Seq<PromptReplacement>,
)
    requires
        !tokens.contains(id),
    ensures
        expansion(tokens, id, replacements) == tokens,
        ranges(tokens, id, replacements).len() == 0,
    decreases tokens.len(),
{
    if tokens.len() > 0 {
        let front = tokens.drop_last();
        assert forall|t: u32| front.contains(t) implies tokens.contains(t) by {
            let i = choose|i: int| 0 <= i < front.len() && front[i] == t;
            assert(tokens[i] == t);
        }
        expansion_without_placeholders(front, id, replacements);
        assert(tokens.last() != id) by {
            assert(tokens[tokens.len() - 1] == tokens.last());
        }
        assert(front + seq![tokens.last()] =~= tokens);
    }
}

/// Position `p` is in `range`, given as offset and length.
pub open spec fn holds(range: (int, int), p: int) -> bool {
    range.0 <= p < range.0 + range.1
}

/// `inner` lies inside `outer`.
pub open spec fn lies_in(inner: (int, int), outer: (int, int)) -> bool {
    outer.0 <= inner.0 && inner.0 + inner.1 <= outer.0 + outer.1
}

/// `patches` are where `patch` stands in `text` inside of `outer`: each lies in one
/// of `outer` and holds nothing else, they ascend, and none is missing.
pub open spec fn covers_patches(
    text: Seq<u32>,
    patch: u32,
    outer: Seq<(int, int)>,
    patches: Seq<(int, int)>,
) -> bool {
    &&& forall|j: int|
        0 <= j < patches.len() ==> 0 < (#[trigger] patches[j]).1 && exists|n: int|
            0 <= n < outer.len() && lies_in(patches[j], #[trigger] outer[n])
    &&& forall|j: int, p: int|
        0 <= j < patches.len() && #[trigger] holds(patches[j], p) ==> 0 <= p < text.len()
            && text[p] == patch
    &&& forall|n: int, p: int|
        0 <= n < outer.len() && #[trigger] holds(outer[n], p) && text[p] == patch ==> exists|j: int|
            0 <= j < patches.len() && #[trigger] holds(patches[j], p)
    &&& forall|i: int, j: int|
        0 <= i < j < patches.len() ==> (#[trigger] patches[i]).0 + patches[i].1 <= (
        #[trigger] patches[j]).0
}

proof fn lemma_covers(
    tokens: Seq<u32>,
    id: u32,
    patch: u32,
    replacements: Seq<PromptReplacement>,
)
    ensures
        covers_patches(
            expansion(tokens, id, replacements),
            patch,
            ranges(tokens, id, replacements),
            patch_ranges(tokens, id, patch, replacements),
        ),
        forall|j: int|
            0 <= j < patch_ranges(tokens, id, patch, replacements).len() ==> (
            #[trigger] patch_ranges(tokens, id, patch, replacements)[j]).0 + patch_ranges(
                tokens,
                id,
                patch,
                replacements,
            )[j].1 <= expansion(tokens, id, replacements).len(),
    decreases tokens.len(),
{
    if tokens.len() > 0 {
        let front = tokens.drop_last();
        lemma_covers(front, id, patch, replacements);
        placeholders_hold_replacements(front, id, replacements);
        let e0 = expansion(front, id, replacements);
        let e1 = expansion(tokens, id, replacements);
        let r0 = ranges(front, id, replacements);
        let r1 = ranges(tokens, id, replacements);
        let p0 = patch_ranges(front, id, patch, replacements);
        let p1 = patch_ranges(tokens, id, patch, replacements);
        let c = placeholder_count(front, id) as int;
        assert forall|p: int| 0 <= p < e0.len() implies e1[p] == e0[p] by {}
        if tokens.last() == id && c < replacements.len() {
            let s = replacements[c].spelled();
            let own = runs(s, patch);
            let by = e0.len() as int;
            runs_are_maximal(s, patch);
            assert forall|p: int| by <= p < e1.len() implies e1[p] == s[p - by] by {}
            assert(r1.len() == r0.len() + 1);
            assert forall|n: int| 0 <= n < r0.len() implies r1[n] == r0[n] by {}
            assert(r1[r0.len() as int] == (by, s.len() as int));
            assert forall|j: int| 0 <= j < p0.len() implies p1[j] == p0[j] by {}
            assert forall|j: int| p0.len() <= j < p1.len() implies p1[j] == (
                own[j - p0.len()].0 + by,
                own[j - p0.len()].1,
            ) by {}
            assert forall|j: int| 0 <= j < p1.len() implies 0 < (#[trigger] p1[j]).1
                && exists|n: int| 0 <= n < r1.len() && lies_in(p1[j], #[trigger] r1[n]) by {
                if j < p0.len() {
                    let n = choose|n: int| 0 <= n < r0.len() && lies_in(p0[j], #[trigger] r0[n]);
                    assert(0 < p0[j].1);
                    assert(lies_in(p1[j], r1[n]));
                } else {
                    let o = own[j - p0.len()];
                    assert(lies_in(p1[j], r1[r0.len() as int]));
                }
            }
            assert forall|j: int, p: int|
                0 <= j < p1.len() && #[trigger] holds(p1[j], p) implies 0 <= p < e1.len()
                && e1[p] == patch by {
                if j < p0.len() {
                    assert(holds(p0[j], p));
                } else {
                    let o = own[j - p0.len()];
                    assert(s[p - by] == patch);
                }
            }
            assert forall|n: int, p: int|
                0 <= n < r1.len() && #[trigger] holds(r1[n], p) && e1[p] == patch implies exists|
                j: int,
            |
                0 <= j < p1.len() && #[trigger] holds(p1[j], p) by {
                if n < r0.len() {
                    assert(holds(r0[n], p));
                    assert(0 <= p < e0.len());
                    let j = choose|j: int| 0 <= j < p0.len() && #[trigger] holds(p0[j], p);
                    assert(holds(p1[j], p));
                } else {
                    assert(s[p - by] == patch);
                    let i = choose|i: int|
                        0 <= i < own.len() && (#[trigger] own[i]).0 <= p - by < own[i].0
                            + own[i].1;
                    assert(holds(p1[p0.len() + i], p));
                }
            }
            assert forall|i: int, j: int| 0 <= i < j < p1.len() implies (#[trigger] p1[i]).0
                + p1[i].1 <= (#[trigger] p1[j]).0 by {
                if j >= p0.len() && i < p0.len() {
                    assert(p0[i].0 + p0[i].1 <= by);
                    assert(own[j - p0.len()].0 >= 0);
                } else if j >= p0.len() {
                    assert(own[i - p0.len()].0 + own[i - p0.len()].1 < own[j - p0.len()].0);
                }
            }
            assert forall|j: int| 0 <= j < p1.len() implies (#[trigger] p1[j]).0 + p1[j].1
                <= e1.len() by {
                if j >= p0.len() {
                    let o = own[j - p0.len()];
                    assert(o.0 + o.1 <= s.len());
                } else {
                    assert(p0[j].0 + p0[j].1 <= e0.len());
                }
            }
        } else {
            assert(r1 == r0 && p1 == p0);
            assert forall|n: int, p: int|
                0 <= n < r1.len() && #[trigger] holds(r1[n], p) && e1[p] == patch implies exists|
                j: int,
            |
                0 <= j < p1.len() && #[trigger] holds(p1[j], p) by {
                assert(holds(r0[n], p));
                assert(0 <= r0[n].0 && r0[n].0 + r0[n].1 <= e0.len());
                assert(e0[p] == patch);
            }
        }
    }
}

/// Patch ranges tell where the patches of the expanded prompt are: each lies in the
/// range of one item and holds patch tokens only, they ascend, and every patch token
/// that belongs to an item is in one.
pub proof fn patches_stand_in_their_items(
    tokens: Seq<u32>,
    id: u32,
    patch: u32,
    replacements: Seq<PromptReplacement>,
    r: ExpandedTokens,
)
    requires
        expands_to(tokens, Some(id), Some(patch), replacements, r),
    ensures
        r.patch_offsets is Some,
        covers_patches(
            r.token_ids@,
            patch,
            r.placeholders@.map_values(|x: PlaceholderRange| (x.offset as int, x.length as int)),
            r.patch_offsets->0@.map_values(|x: (u32, u32)| (x.0 as int, x.1 as int)),
        ),
{
    lemma_covers(tokens, id, patch, replacements);
    assert(r.placeholders@.map_values(|x: PlaceholderRange| (x.offset as int, x.length as int))
        =~= range_values(r.placeholders@));
    assert(r.patch_offsets->0@.map_values(|x: (u32, u32)| (x.0 as int, x.1 as int))
        =~= pair_values(r.patch_offsets->0@));
}

/// How many of the first `k` tokens are placeholders.
pub open spec fn met(tokens: Seq<u32>, id: u32, k: int) -> int {
    tokens.take(k).filter(|t: u32| t == id).len() as int
}

/// How many positions the first `n` ranges take.
pub open spec fn total_length(list: Seq<PlaceholderRange>, n: int) -> int
    decreases n,
{
    if n <= 0 {
        0
    } else {
        total_length(list, n - 1) + list[n - 1].length
    }
}

proof fn lemma_met(tokens: Seq<u32>, id: u32, k: int)
    requires
        0 <= k <= tokens.len(),
    ensures
        met(tokens, id, k) == placeholder_count(tokens.take(k), id),
    decreases k,
{
    let f = |t: u32| t == id;
    let t = tokens.take(k);
    reveal(Seq::filter);
    if k > 0 {
        lemma_met(tokens, id, k - 1);
        assert(t.drop_last() =~= tokens.take(k - 1));
    }
}

/// Where the first `k` tokens end after expansion.
proof fn lemma_landing(
    tokens: Seq<u32>,
    id: u32,
    replacements: Seq<PromptReplacement>,
    list: Seq<PlaceholderRange>,
    k: int,
)
    requires
        0 <= k <= tokens.len(),
        range_values(list) == ranges(tokens, id, replacements),
    ensures
        ({
            let c = placeholder_count(tokens.take(k), id) as int;
            let n = if c < replacements.len() {
                c
            } else {
                replacements.len() as int
            };
            &&& expansion(tokens.take(k), id, replacements).len() == k - n + total_length(list, n)
            &&& n <= list.len()
            &&& ranges(tokens.take(k), id, replacements) == ranges(tokens, id, replacements).take(n)
            &&& forall|p: int|
                0 <= p < expansion(tokens.take(k), id, replacements).len() ==> expansion(
                    tokens,
                    id,
                    replacements,
                )[p] == expansion(tokens.take(k), id, replacements)[p]
            &&& expansion(tokens.take(k), id, replacements).len() <= expansion(
                tokens,
                id,
                replacements,
            ).len()
        }),
    decreases k,
{
    lemma_front(tokens, id, replacements, k);
    placeholders_hold_replacements(tokens.take(k), id, replacements);
    let rs = ranges(tokens, id, replacements);
    if k > 0 {
        lemma_landing(tokens, id, replacements, list, k - 1);
        lemma_front(tokens, id, replacements, k - 1);
        let t = tokens.take(k);
        assert(t.drop_last() =~= tokens.take(k - 1));
        let c = placeholder_count(tokens.take(k - 1), id) as int;
        if t.last() == id && c < replacements.len() {
            let rk = ranges(t, id, replacements);
            assert(rk[c] == rs[c]);
            assert(rs[c] == (list[c].offset as int, list[c].length as int)) by {
                assert(range_values(list)[c] == (list[c].offset as int, list[c].length as int));
            }
        }
    }
}

/// The first tokens expand to the beginning of the whole expansion.
proof fn lemma_front(tokens: Seq<u32>, id: u32, replacements: Seq<PromptReplacement>, k: int)
    requires
        0 <= k <= tokens.len(),
    ensures
        ({
            let e = expansion(tokens, id, replacements);
            let f = expansion(tokens.take(k), id, replacements);
            let rs = ranges(tokens, id, replacements);
            let rk = ranges(tokens.take(k), id, replacements);
            &&& f.len() <= e.len()
            &&& forall|p: int| 0 <= p < f.len() ==> e[p] == f[p]
            &&& rk.len() <= rs.len()
            &&& rk == rs.take(rk.len() as int)
        }),
    decreases tokens.len() - k,
{
    if k < tokens.len() {
        lemma_front(tokens, id, replacements, k + 1);
        let t = tokens.take(k + 1);
        assert(t.drop_last() =~= tokens.take(k));
        let rk = ranges(tokens.take(k), id, replacements);
        assert(rk =~= ranges(t, id, replacements).take(rk.len() as int));
        assert(rk =~= ranges(tokens, id, replacements).take(rk.len() as int));
    } else {
        assert(tokens.take(k) =~= tokens);
        let rs = ranges(tokens, id, replacements);
        assert(rs =~= rs.take(rs.len() as int));
    }
}

/// Every token of a prompt is accounted for, in order: the first placeholders become
/// the tokens of their replacements, where their ranges say, and any other token
/// stands right behind what came before it. Nothing is added.
pub proof fn every_token_has_its_place(
    tokens: Seq<u32>,
    id: u32,
    patch: Option<u32>,
    replacements: Seq<PromptReplacement>,
    r: ExpandedTokens,
    k: int,
)
    requires
        expands_to(tokens, Some(id), patch, replacements, r),
        0 <= k < tokens.len(),
    ensures
        ({
            let before = if met(tokens, id, k) < replacements.len() {
                met(tokens, id, k)
            } else {
                replacements.len() as int
            };
            let place = k - before + total_length(r.placeholders@, before);
            if tokens[k] == id && met(tokens, id, k) < replacements.len() {
                let n = met(tokens, id, k);
                let x = r.placeholders@[n];
                let spelled = replacements[n].tokens@;
                &&& n < r.placeholders@.len()
                &&& x.offset == place
                &&& x.length == spelled.len()
                &&& place + spelled.len() <= r.token_ids@.len()
                &&& forall|i: int|
                    0 <= i < spelled.len() ==> r.token_ids@[place + i] == #[trigger] spelled[i]
                        as u32
            } else {
                &&& place < r.token_ids@.len()
                &&& r.token_ids@[place] == tokens[k]
            }
        }),
        ({
            let all = r.placeholders@.len() as int;
            &&& all == if met(tokens, id, tokens.len() as int) < replacements.len() {
                met(tokens, id, tokens.len() as int)
            } else {
                replacements.len() as int
            }
            &&& r.token_ids@.len() == tokens.len() - all + total_length(r.placeholders@, all)
        }),
{
    let e = expansion(tokens, id, replacements);
    let list = r.placeholders@;
    lemma_met(tokens, id, k);
    lemma_met(tokens, id, tokens.len() as int);
    lemma_landing(tokens, id, replacements, list, k);
    lemma_landing(tokens, id, replacements, list, k + 1);
    lemma_landing(tokens, id, replacements, list, tokens.len() as int);
    placeholders_hold_replacements(tokens, id, replacements);
    assert(tokens.take(tokens.len() as int) =~= tokens);
    let t = tokens.take(k + 1);
    assert(t.drop_last() =~= tokens.take(k));
    assert(range_values(list).len() == list.len());
    let f = expansion(tokens.take(k), id, replacements);
    let g = expansion(t, id, replacements);
    if tokens[k] == id && met(tokens, id, k) < replacements.len() {
        let n = met(tokens, id, k);
        let rk = ranges(t, id, replacements);
        assert(rk[n] == ranges(tokens, id, replacements)[n]);
        assert(range_values(list)[n] == (list[n].offset as int, list[n].length as int));
        let spelled = replacements[n].tokens@;
        assert forall|i: int| 0 <= i < spelled.len() implies e[f.len() + i]
            == #[trigger] spelled[i] as u32 by {
            assert(g[f.len() + i] == replacements[n].spelled()[i]);
        }
    } else {
        assert(g[f.len() as int] == tokens[k]);
    }
}

/// Without a placeholder nothing is expanded.
pub proof fn no_placeholder_no_expansion(
    tokens: Seq<u32>,
    patch: Option<u32>,
    replacements: Seq<PromptReplacement>,
    r: ExpandedTokens,
)
    requires
        expands_to(tokens, None, patch, replacements, r),
    ensures
        r.token_ids@ == tokens,
        r.placeholders@.len() == 0,
        r.patch_offsets is None,
{
}

/// What expanding a prompt gives back: the patch ranges it reports are those of the
/// patch tokens in it, item by item, whatever stands before an item.
pub proof fn expanding_finds_the_patches(
    tokens: Vec<u32>,
    id: u32,
    patch: u32,
    replacements: Vec<PromptReplacement>,
    r: ExpandedTokens,
    k: int,
    p: int,
)
    requires
        call_ensures(expand_tokens, (&tokens, Some(id), Some(patch), &replacements), r),
    ensures
        r.patch_offsets is Some,
        ({
            let found = r.patch_offsets->0@;
            0 <= k < found.len() && found[k].0 <= p < found[k].0 + found[k].1 ==> 0 <= p
                < r.token_ids@.len() && r.token_ids@[p] == patch
        }),
{
    patches_stand_in_their_items(tokens@, id, patch, replacements@, r);
    let found = r.patch_offsets->0@;
    let ranges = found.map_values(|x: (u32, u32)| (x.0 as int, x.1 as int));
    if 0 <= k < found.len() && found[k].0 <= p < found[k].0 + found[k].1 {
        assert(ranges[k] == (found[k].0 as int, found[k].1 as int));
        assert(holds(ranges[k], p));
    }
}

} // verus!
