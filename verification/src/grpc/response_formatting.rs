//! Token counts of responses.

use crate::grpc::proto_wrapper::request::Engine;
use crate::grpc::proto_wrapper::response::{ProtoGenerateComplete, ProtoGenerateStreamChunk};
use vstd::prelude::*;

verus! {

/// What a request used.
#[derive(Debug, Clone, Copy, PartialEq, Eq, Structural)]
pub struct Usage {
    pub prompt_tokens: u32,
    pub completion_tokens: u32,
    pub total_tokens: u32,
    pub cached_tokens: u32,
    pub reasoning_tokens: u32,
}

/// A count that responses carry.
pub enum TokenCount {
    Prompt,
    Completion,
    Cached,
    Reasoning,
}

/// The count of one response.
pub open spec fn count_of(r: ProtoGenerateComplete, c: TokenCount) -> nat {
    match c {
        TokenCount::Prompt => r@.prompt_tokens as nat,
        TokenCount::Completion => r@.completion_tokens as nat,
        TokenCount::Cached => r@.cached_tokens as nat,
        TokenCount::Reasoning => r@.reasoning_tokens as nat,
    }
}

/// The count of all responses together.
pub open spec fn count_sum(responses: Seq<ProtoGenerateComplete>, c: TokenCount) -> nat
    decreases responses.len(),
{
    if responses.len() == 0 {
        0
    } else {
        count_sum(responses.drop_last(), c) + count_of(responses.last(), c)
    }
}

proof fn lemma_count_grows(responses: Seq<ProtoGenerateComplete>, c: TokenCount, n: int)
    requires
        0 <= n <= responses.len(),
    ensures
        count_sum(responses.take(n), c) <= count_sum(responses, c),
    decreases responses.len() - n,
{
    if n < responses.len() {
        lemma_count_grows(responses, c, n + 1);
        assert(responses.take(n + 1).drop_last() =~= responses.take(n));
    } else {
        assert(responses.take(n) =~= responses);
    }
}

/// Build usage information from collected responses: each count is the sum
/// over all of them.
pub fn build_usage(responses: &Vec<ProtoGenerateComplete>) -> (r: Usage)
    requires
        count_sum(responses@, TokenCount::Prompt) + count_sum(responses@, TokenCount::Completion)
            <= u32::MAX,
        count_sum(responses@, TokenCount::Cached) <= u32::MAX,
        count_sum(responses@, TokenCount::Reasoning) <= u32::MAX,
    ensures
        r.prompt_tokens == count_sum(responses@, TokenCount::Prompt),
        r.completion_tokens == count_sum(responses@, TokenCount::Completion),
        r.total_tokens == r.prompt_tokens + r.completion_tokens,
        r.cached_tokens == count_sum(responses@, TokenCount::Cached),
        r.reasoning_tokens == count_sum(responses@, TokenCount::Reasoning),
{
    let mut prompt: u32 = 0;
    let mut completion: u32 = 0;
    let mut cached: u32 = 0;
    let mut reasoning: u32 = 0;
    let mut i: usize = 0;
    assert(responses@.take(0) =~= Seq::<ProtoGenerateComplete>::empty());
    while i < responses.len()
        invariant
            i <= responses@.len(),
            count_sum(responses@, TokenCount::Prompt) + count_sum(
                responses@,
                TokenCount::Completion,
            ) <= u32::MAX,
            count_sum(responses@, TokenCount::Cached) <= u32::MAX,
            count_sum(responses@, TokenCount::Reasoning) <= u32::MAX,
            prompt == count_sum(responses@.take(i as int), TokenCount::Prompt),
            completion == count_sum(responses@.take(i as int), TokenCount::Completion),
            cached == count_sum(responses@.take(i as int), TokenCount::Cached),
            reasoning == count_sum(responses@.take(i as int), TokenCount::Reasoning),
        decreases responses@.len() - i,
    {
        proof {
            lemma_count_grows(responses@, TokenCount::Prompt, i + 1);
            lemma_count_grows(responses@, TokenCount::Completion, i + 1);
            lemma_count_grows(responses@, TokenCount::Cached, i + 1);
            lemma_count_grows(responses@, TokenCount::Reasoning, i + 1);
            assert(responses@.take(i + 1).drop_last() =~= responses@.take(i as int));
        }
        prompt += responses[i].prompt_tokens();
        completion += responses[i].completion_tokens();
        cached += responses[i].cached_tokens();
        reasoning += responses[i].reasoning_tokens();
        i += 1;
    }
    assert(responses@.take(i as int) =~= responses@);
    Usage {
        prompt_tokens: prompt,
        completion_tokens: completion,
        total_tokens: prompt + completion,
        cached_tokens: cached,
        reasoning_tokens: reasoning,
    }
}

/// The count under `index`, none where there is no entry.
pub open spec fn entry_count(entries: Seq<(u32, u32)>, index: u32) -> nat
    decreases entries.len(),
{
    if entries.len() == 0 {
        0
    } else if entries.last().0 == index {
        entries.last().1 as nat
    } else {
        entry_count(entries.drop_last(), index)
    }
}

/// The sum of all counts.
pub open spec fn entry_sum(entries: Seq<(u32, u32)>) -> nat
    decreases entries.len(),
{
    if entries.len() == 0 {
        0
    } else {
        entry_sum(entries.drop_last()) + entries.last().1 as nat
    }
}

/// No index has two entries.
pub open spec fn distinct_indices(entries: Seq<(u32, u32)>) -> bool {
    forall|i: int, j: int|
        0 <= i < j < entries.len() ==> (#[trigger] entries[i]).0 != (#[trigger] entries[j]).0
}

/// A message that tokens are counted from.
pub enum TokenEvent {
    Chunk(ProtoGenerateStreamChunk),
    Complete(ProtoGenerateComplete),
}

impl TokenEvent {
    /// The choice that the message belongs to.
    pub open spec fn index(self) -> u32 {
        match self {
            TokenEvent::Chunk(c) => c@.index,
            TokenEvent::Complete(c) => c@.index,
        }
    }

    pub open spec fn is_vllm(self) -> bool {
        match self {
            TokenEvent::Chunk(c) => c@.engine == Engine::Vllm,
            TokenEvent::Complete(c) => c@.engine == Engine::Vllm,
        }
    }

    /// The count of the message's choice, where it was `count` before.
    pub open spec fn counted(self, count: nat) -> nat {
        match self {
            TokenEvent::Chunk(c) => if self.is_vllm() {
                count + c@.token_ids.len()
            } else {
                count
            },
            TokenEvent::Complete(c) => if self.is_vllm() {
                count
            } else {
                c@.completion_tokens as nat
            },
        }
    }
}

/// Tracks per-index completion token counts across streaming chunks.
///
/// vLLM sends delta counts per chunk, which add up; the other backends send the
/// total at the end.
pub struct CompletionTokenTracker {
    tokens: Vec<(u32, u32)>,
}

impl CompletionTokenTracker {
    pub closed spec fn entries(&self) -> Seq<(u32, u32)> {
        self.tokens@
    }

    pub open spec fn wf(&self) -> bool {
        distinct_indices(self.entries())
    }

    /// The tokens counted under `index`.
    pub open spec fn count(&self, index: u32) -> nat {
        entry_count(self.entries(), index)
    }

    /// All tokens counted.
    pub open spec fn sum(&self) -> nat {
        entry_sum(self.entries())
    }

    /// What recording a message does: `after` follows from `before`.
    pub open spec fn recorded(before: Self, event: TokenEvent, after: Self) -> bool {
        let index = event.index();
        let count = event.counted(before.count(index));
        &&& after.wf()
        &&& after.count(index) == count
        &&& forall|i: u32| i != index ==> #[trigger] after.count(i) == before.count(i)
        &&& after.sum() == before.sum() - before.count(index) + count
    }

    /// Nothing is counted yet.
    pub open spec fn is_fresh(&self) -> bool {
        &&& self.wf()
        &&& self.sum() == 0
        &&& forall|index: u32| #[trigger] self.count(index) == 0
    }

    pub fn new() -> (r: Self)
        ensures
            r.is_fresh(),
    {
        CompletionTokenTracker { tokens: Vec::new() }
    }

    /// Sets the count under `index`.
    fn set(&mut self, index: u32, count: u32)
        requires
            old(self).wf(),
        ensures
            final(self).wf(),
            final(self).count(index) == count,
            forall|i: u32| i != index ==> #[trigger] final(self).count(i) == old(self).count(i),
            final(self).sum() == old(self).sum() - old(self).count(index) + count,
    {
        let mut k: usize = 0;
        while k < self.tokens.len()
            invariant
                k <= self.tokens@.len(),
                *self == *old(self),
                self.wf(),
                forall|j: int| 0 <= j < k ==> (#[trigger] self.tokens@[j]).0 != index,
            decreases self.tokens@.len() - k,
        {
            if self.tokens[k].0 == index {
                self.tokens.set(k, (index, count));
                proof {
                    lemma_entry_update(old(self).tokens@, k as int, count);
                }
                return;
            }
            k += 1;
        }
        self.tokens.push((index, count));
        proof {
            lemma_entry_absent(old(self).tokens@, index);
            let t = self.tokens@;
            assert(t.drop_last() =~= old(self).tokens@);
            assert forall|i: u32| i != index implies #[trigger] entry_count(t, i) == entry_count(
                old(self).tokens@,
                i,
            ) by {}
            assert(distinct_indices(t));
        }
    }

    fn get(&self, index: u32) -> (r: u32)
        requires
            self.wf(),
        ensures
            r == self.count(index),
    {
        let mut k: usize = 0;
        while k < self.tokens.len()
            invariant
                k <= self.tokens@.len(),
                self.wf(),
                forall|j: int| 0 <= j < k ==> (#[trigger] self.tokens@[j]).0 != index,
            decreases self.tokens@.len() - k,
        {
            if self.tokens[k].0 == index {
                proof {
                    lemma_entry_present(self.tokens@, k as int);
                }
                return self.tokens[k].1;
            }
            k += 1;
        }
        proof {
            lemma_entry_absent(self.tokens@, index);
        }
        0
    }

    /// Record tokens from a streaming chunk. vLLM's counts add up; for the
    /// other backends this is a no-op.
    pub fn record_chunk(&mut self, chunk: &ProtoGenerateStreamChunk)
        requires
            old(self).wf(),
            chunk@.engine == Engine::Vllm ==> old(self).count(chunk@.index)
                + chunk@.token_ids.len() <= u32::MAX,
        ensures
            final(self).wf(),
            chunk@.engine != Engine::Vllm ==> *final(self) == *old(self),
            Self::recorded(*old(self), TokenEvent::Chunk(*chunk), *final(self)),
    {
        if chunk.is_vllm() {
            let count: u32 = self.get(chunk.index()) + chunk.token_ids().len() as u32;
            self.set(chunk.index(), count);
        }
    }

    /// Record the final count. For vLLM the accumulated count stays; for the
    /// others the count at the end is the total.
    pub fn record_complete(&mut self, complete: &ProtoGenerateComplete)
        requires
            old(self).wf(),
        ensures
            final(self).wf(),
            Self::recorded(*old(self), TokenEvent::Complete(*complete), *final(self)),
    {
        let index: u32 = complete.index();
        if complete.is_vllm() {
            let count: u32 = self.get(index);
            self.set(index, count);
        } else {
            self.set(index, complete.completion_tokens());
        }
    }

    /// Get total completion tokens across all indices
    pub fn total(&self) -> (r: u32)
        requires
            self.sum() <= u32::MAX,
        ensures
            r == self.sum(),
    {
        let mut total: u32 = 0;
        let mut k: usize = 0;
        assert(self.tokens@.take(0) =~= Seq::<(u32, u32)>::empty());
        while k < self.tokens.len()
            invariant
                k <= self.tokens@.len(),
                self.sum() <= u32::MAX,
                total == entry_sum(self.tokens@.take(k as int)),
            decreases self.tokens@.len() - k,
        {
            proof {
                lemma_entry_sum_grows(self.tokens@, k + 1);
                assert(self.tokens@.take(k + 1).drop_last() =~= self.tokens@.take(k as int));
            }
            total += self.tokens[k].1;
            k += 1;
        }
        assert(self.tokens@.take(k as int) =~= self.tokens@);
        total
    }
}

proof fn lemma_entry_sum_grows(entries: Seq<(u32, u32)>, n: int)
    requires
        0 <= n <= entries.len(),
    ensures
        entry_sum(entries.take(n)) <= entry_sum(entries),
    decreases entries.len() - n,
{
    if n < entries.len() {
        lemma_entry_sum_grows(entries, n + 1);
        assert(entries.take(n + 1).drop_last() =~= entries.take(n));
    } else {
        assert(entries.take(n) =~= entries);
    }
}

proof fn lemma_entry_absent(entries: Seq<(u32, u32)>, index: u32)
    requires
        forall|j: int| 0 <= j < entries.len() ==> (#[trigger] entries[j]).0 != index,
    ensures
        entry_count(entries, index) == 0,
    decreases entries.len(),
{
    if entries.len() > 0 {
        let front = entries.drop_last();
        assert forall|j: int| 0 <= j < front.len() implies (#[trigger] front[j]).0 != index by {
            assert(front[j] == entries[j]);
        }
        assert(entries[entries.len() - 1].0 != index);
        lemma_entry_absent(front, index);
    }
}

proof fn lemma_entry_present(entries: Seq<(u32, u32)>, k: int)
    requires
        distinct_indices(entries),
        0 <= k < entries.len(),
    ensures
        entry_count(entries, entries[k].0) == entries[k].1,
    decreases entries.len(),
{
    if k < entries.len() - 1 {
        let front = entries.drop_last();
        assert(entries[k].0 != entries[entries.len() - 1].0);
        assert(distinct_indices(front)) by {
            assert forall|i: int, j: int| 0 <= i < j < front.len() implies (
            #[trigger] front[i]).0 != (#[trigger] front[j]).0 by {
                assert(entries[i].0 != entries[j].0);
            }
        }
        lemma_entry_present(front, k);
    }
}

proof fn lemma_entry_update(entries: Seq<(u32, u32)>, k: int, count: u32)
    requires
        distinct_indices(entries),
        0 <= k < entries.len(),
    ensures
        distinct_indices(entries.update(k, (entries[k].0, count))),
        entry_count(entries.update(k, (entries[k].0, count)), entries[k].0) == count,
        forall|i: u32|
            i != entries[k].0 ==> #[trigger] entry_count(
                entries.update(k, (entries[k].0, count)),
                i,
            ) == entry_count(entries, i),
        entry_sum(entries.update(k, (entries[k].0, count))) == entry_sum(entries) - entry_count(
            entries,
            entries[k].0,
        ) + count,
    decreases entries.len(),
{
    let index = entries[k].0;
    let after = entries.update(k, (index, count));
    assert(distinct_indices(after)) by {
        assert forall|i: int, j: int| 0 <= i < j < after.len() implies (#[trigger] after[i]).0 != (
        #[trigger] after[j]).0 by {
            assert(entries[i].0 != entries[j].0);
        }
    }
    lemma_entry_present(entries, k);
    lemma_entry_present(after, k);
    let front = entries.drop_last();
    if k == entries.len() - 1 {
        assert(after.drop_last() =~= front);
    } else {
        assert(distinct_indices(front)) by {
            assert forall|i: int, j: int| 0 <= i < j < front.len() implies (
            #[trigger] front[i]).0 != (#[trigger] front[j]).0 by {
                assert(entries[i].0 != entries[j].0);
            }
        }
        assert(after.drop_last() =~= front.update(k, (index, count)));
        assert(entries[k].0 != entries[entries.len() - 1].0);
        lemma_entry_update(front, k, count);
        assert(after.last() == entries.last());
        assert forall|i: u32| i != index implies #[trigger] entry_count(after, i) == entry_count(
            entries,
            i,
        ) by {
            assert(entry_count(front.update(k, (index, count)), i) == entry_count(front, i));
        }
    }
}

/// How many tokens the chunks of `index` bring.
pub open spec fn chunk_tokens(events: Seq<TokenEvent>, index: u32) -> nat
    decreases events.len(),
{
    if events.len() == 0 {
        0
    } else {
        chunk_tokens(events.drop_last(), index) + match events.last() {
            TokenEvent::Chunk(c) => if c@.index == index {
                c@.token_ids.len()
            } else {
                0
            },
            TokenEvent::Complete(_) => 0,
        }
    }
}

/// The total that the last message at the end of `index` reports; none where
/// there is no such message.
pub open spec fn reported_total(events: Seq<TokenEvent>, index: u32) -> nat
    decreases events.len(),
{
    if events.len() == 0 {
        0
    } else {
        match events.last() {
            TokenEvent::Complete(c) if c@.index == index => c@.completion_tokens as nat,
            _ => reported_total(events.drop_last(), index),
        }
    }
}

/// `index` is served by vLLM.
pub open spec fn served_by_vllm(events: Seq<TokenEvent>, index: u32) -> bool {
    exists|k: int|
        0 <= k < events.len() && (#[trigger] events[k]).index() == index && events[k].is_vllm()
}

/// The tokens of one choice over a whole run: what its chunks bring where vLLM
/// serves it, and the reported total where another backend does.
pub open spec fn run_count(events: Seq<TokenEvent>, index: u32) -> nat {
    if served_by_vllm(events, index) {
        chunk_tokens(events, index)
    } else {
        reported_total(events, index)
    }
}

/// The tokens of the choices below `n` over a whole run.
pub open spec fn run_total(events: Seq<TokenEvent>, n: int) -> nat
    decreases n,
{
    if n <= 0 {
        0
    } else {
        run_total(events, n - 1) + run_count(events, (n - 1) as u32)
    }
}

/// `states` are what a tracker goes through as it records `events`.
pub open spec fn is_run(states: Seq<CompletionTokenTracker>, events: Seq<TokenEvent>) -> bool {
    &&& states.len() == events.len() + 1
    &&& states[0].is_fresh()
    &&& forall|k: int|
        #![trigger events[k]]
        0 <= k < events.len() ==> CompletionTokenTracker::recorded(
            states[k],
            events[k],
            states[k + 1],
        )
}

/// Every choice is served by one backend.
pub open spec fn one_backend_each(events: Seq<TokenEvent>) -> bool {
    forall|a: int, b: int|
        0 <= a < events.len() && 0 <= b < events.len() && (#[trigger] events[a]).index() == (
        #[trigger] events[b]).index() ==> events[a].is_vllm() == events[b].is_vllm()
}

/// Whatever was recorded and in whatever order, the total is the sum over all
/// choices of their tokens: for a choice that vLLM serves, those of all its
/// chunks; for any other, the last total that was reported, if there was one.
pub proof fn totals_cover_the_run(states: Seq<CompletionTokenTracker>, events: Seq<TokenEvent>)
    requires
        is_run(states, events),
        one_backend_each(events),
    ensures
        forall|index: u32| #[trigger]
            states.last().count(index) == run_count(events, index),
        states.last().sum() == run_total(events, u32::MAX + 1),
{
    lemma_run_counts(states, events);
    lemma_sum_by_index(states.last().entries(), u32::MAX + 1);
    lemma_same_totals(states.last(), events, u32::MAX + 1);
}

proof fn lemma_run_counts(states: Seq<CompletionTokenTracker>, events: Seq<TokenEvent>)
    requires
        is_run(states, events),
        one_backend_each(events),
    ensures
        states.last().wf(),
        forall|index: u32| #[trigger]
            states.last().count(index) == run_count(events, index),
    decreases events.len(),
{
    if events.len() > 0 {
        let front = events.drop_last();
        let e = events.last();
        let n = front.len() as int;
        assert forall|k: int| #![trigger front[k]] 0 <= k < front.len() implies
            CompletionTokenTracker::recorded(
                states.drop_last()[k],
                front[k],
                states.drop_last()[k + 1],
            ) by {
            assert(front[k] == events[k]);
        }
        assert(one_backend_each(front)) by {
            assert forall|a: int, b: int|
                0 <= a < front.len() && 0 <= b < front.len() && (#[trigger] front[a]).index() == (
                #[trigger] front[b]).index() implies front[a].is_vllm() == front[b].is_vllm() by {
                assert(front[a] == events[a]);
                assert(front[b] == events[b]);
            }
        }
        lemma_run_counts(states.drop_last(), front);
        let before = states.drop_last().last();
        let after = states.last();
        assert(events[n] == e);
        assert(CompletionTokenTracker::recorded(before, e, after));
        assert forall|index: u32| #[trigger] after.count(index) == run_count(events, index) by {
            assert(before.count(index) == run_count(front, index));
            if served_by_vllm(front, index) {
                let k = choose|k: int|
                    0 <= k < front.len() && (#[trigger] front[k]).index() == index
                        && front[k].is_vllm();
                assert(events[k] == front[k]);
                assert(served_by_vllm(events, index));
                assert(e.index() == index ==> e.is_vllm());
            } else if e.index() == index && e.is_vllm() {
                assert(served_by_vllm(events, index));
                assert forall|k: int| 0 <= k < front.len() implies (#[trigger] front[k]).index()
                    != index by {
                    assert(events[k] == front[k]);
                }
                lemma_nothing_of(front, index);
            } else {
                if served_by_vllm(events, index) {
                    let k = choose|k: int|
                        0 <= k < events.len() && (#[trigger] events[k]).index() == index
                            && events[k].is_vllm();
                    if k < n {
                        assert(front[k] == events[k]);
                    }
                    assert(false);
                }
            }
        }
    } else {
        assert(!exists|index: u32| served_by_vllm(events, index));
    }
}

/// A choice without messages has no tokens.
proof fn lemma_nothing_of(events: Seq<TokenEvent>, index: u32)
    requires
        forall|k: int| 0 <= k < events.len() ==> (#[trigger] events[k]).index() != index,
    ensures
        chunk_tokens(events, index) == 0,
        reported_total(events, index) == 0,
    decreases events.len(),
{
    if events.len() > 0 {
        let front = events.drop_last();
        assert forall|k: int| 0 <= k < front.len() implies (#[trigger] front[k]).index()
            != index by {
            assert(front[k] == events[k]);
        }
        assert(events[events.len() - 1].index() != index);
        lemma_nothing_of(front, index);
    }
}

/// The counts of the indices below `n`.
spec fn count_below(entries: Seq<(u32, u32)>, n: int) -> nat
    decreases n,
{
    if n <= 0 {
        0
    } else {
        count_below(entries, n - 1) + entry_count(entries, (n - 1) as u32)
    }
}

/// Counting by index counts every entry once.
proof fn lemma_sum_by_index(entries: Seq<(u32, u32)>, n: int)
    requires
        distinct_indices(entries),
        n == u32::MAX + 1,
    ensures
        count_below(entries, n) == entry_sum(entries),
    decreases entries.len(),
{
    if entries.len() == 0 {
        lemma_no_entries(entries, n);
    } else {
        let front = entries.drop_last();
        let x = entries.last().0;
        assert(distinct_indices(front)) by {
            assert forall|i: int, j: int| 0 <= i < j < front.len() implies (
            #[trigger] front[i]).0 != (#[trigger] front[j]).0 by {
                assert(entries[i].0 != entries[j].0);
            }
        }
        assert forall|j: int| 0 <= j < front.len() implies (#[trigger] front[j]).0 != x by {
            assert(entries[j].0 != entries[entries.len() - 1].0);
        }
        lemma_entry_absent(front, x);
        lemma_sum_by_index(front, n);
        lemma_one_more_entry(entries, n);
    }
}

proof fn lemma_no_entries(entries: Seq<(u32, u32)>, n: int)
    requires
        entries.len() == 0,
    ensures
        count_below(entries, n) == 0,
    decreases n,
{
    if n > 0 {
        lemma_no_entries(entries, n - 1);
    }
}

proof fn lemma_one_more_entry(entries: Seq<(u32, u32)>, n: int)
    requires
        entries.len() > 0,
        entry_count(entries.drop_last(), entries.last().0) == 0,
        0 <= n <= u32::MAX + 1,
    ensures
        count_below(entries, n) == count_below(entries.drop_last(), n) + if entries.last().0 < n {
            entries.last().1 as nat
        } else {
            0
        },
    decreases n,
{
    if n > 0 {
        lemma_one_more_entry(entries, n - 1);
    }
}

proof fn lemma_same_totals(t: CompletionTokenTracker, events: Seq<TokenEvent>, n: int)
    requires
        forall|index: u32| #[trigger] t.count(index) == run_count(events, index),
    ensures
        count_below(t.entries(), n) == run_total(events, n),
    decreases n,
{
    if n > 0 {
        lemma_same_totals(t, events, n - 1);
        assert(t.count((n - 1) as u32) == run_count(events, (n - 1) as u32));
    }
}

/// Usage adds up: that of two groups of responses is that of the one and the other,
/// and that of one response is what it reports.
pub proof fn usage_adds_up(
    front: Seq<ProtoGenerateComplete>,
    back: Seq<ProtoGenerateComplete>,
    one: ProtoGenerateComplete,
    c: TokenCount,
)
    ensures
        count_sum(front + back, c) == count_sum(front, c) + count_sum(back, c),
        count_sum(Seq::empty(), c) == 0,
        count_sum(seq![one], TokenCount::Prompt) == one@.prompt_tokens,
        count_sum(seq![one], TokenCount::Completion) == one@.completion_tokens,
        count_sum(seq![one], TokenCount::Cached) == one@.cached_tokens,
        count_sum(seq![one], TokenCount::Reasoning) == one@.reasoning_tokens,
    decreases back.len(),
{
    reveal_with_fuel(count_sum, 2);
    if back.len() == 0 {
        assert(front + back =~= front);
    } else {
        usage_adds_up(front, back.drop_last(), one, c);
        assert((front + back).drop_last() =~= front + back.drop_last());
    }
}

/// Chunks of vLLM add their tokens to what was counted; those of other backends add
/// nothing, and only their reports at the end count.
pub proof fn only_vllm_chunks_count(event: TokenEvent, count: nat)
    ensures
        event matches TokenEvent::Chunk(c) ==> {
            &&& event.index() == c@.index
            &&& c@.engine is Vllm ==> event.counted(count) == count + c@.token_ids.len()
            &&& !(c@.engine is Vllm) ==> event.counted(count) == count
        },
        event matches TokenEvent::Complete(c) ==> {
            &&& event.index() == c@.index
            &&& c@.engine is Vllm ==> event.counted(count) == count
            &&& !(c@.engine is Vllm) ==> event.counted(count) == c@.completion_tokens
        },
{
}

} // verus!
