//! Incremental stop-string scanning for channel text.
//!
//! Text arrives in pieces. The scanner emits what can no longer be part of a
//! stop string, holds back the tail that still could, and ends the text right
//! behind the first stop string that completes.

use crate::text::{find, from_chars, occurs_at, texts, to_chars};
use vstd::prelude::*;

verus! {

/// Some stop string stands in `text` at position `at`.
pub open spec fn stop_at(stops: Seq<Seq<char>>, text: Seq<char>, at: int) -> bool {
    exists|k: int| 0 <= k < stops.len() && #[trigger] occurs_at(text, stops[k], at)
}

/// The last `n` characters of `text` begin some stop string.
pub open spec fn tail_begins_stop(stops: Seq<Seq<char>>, text: Seq<char>, n: int) -> bool {
    exists|k: int|
        0 <= k < stops.len() && #[trigger] occurs_at(
            stops[k],
            text.subrange(text.len() - n, text.len() as int),
            0,
        )
}

/// `stop` is what ends `text`: it stands at `at`, no stop string stands
/// earlier, and none that stands there is longer.
pub open spec fn ends_text(
    stops: Seq<Seq<char>>,
    text: Seq<char>,
    at: int,
    stop: Seq<char>,
) -> bool {
    &&& stops.contains(stop)
    &&& occurs_at(text, stop, at)
    &&& forall|i: int| i < at ==> !stop_at(stops, text, i)
    &&& forall|k: int|
        0 <= k < stops.len() && #[trigger] occurs_at(text, stops[k], at) ==> stops[k].len()
            <= stop.len()
}

/// What scanning `text` gives: the emitted text, the stop string that matched
/// (if any) and the tail that is held back.
pub open spec fn scanned(
    stops: Seq<Seq<char>>,
    text: Seq<char>,
    emit: Seq<char>,
    matched: Option<Seq<char>>,
    held: Seq<char>,
) -> bool {
    match matched {
        Some(stop) => {
            &&& ends_text(stops, text, emit.len() - stop.len(), stop)
            &&& emit.len() <= text.len()
            &&& emit == text.subrange(0, emit.len() as int)
            &&& held == Seq::<char>::empty()
        },
        None => {
            &&& forall|i: int| !stop_at(stops, text, i)
            &&& text == emit + held
            &&& held.len() == 0 || tail_begins_stop(stops, text, held.len() as int)
            &&& forall|n: int| held.len() < n <= text.len() ==> !tail_begins_stop(stops, text, n)
        },
    }
}

/// Result of feeding text through the scanner.
pub struct StopScan {
    /// Text safe to emit: everything up to and including a match, or the
    /// prefix that cannot be part of a future match.
    pub emit: String,
    /// A stop sequence completed inside this push.
    pub stopped: bool,
}

pub struct TextStopScanner {
    stops: Vec<String>,
    /// Tail held back because it could still grow into a match.
    pending: String,
    matched: Option<String>,
}

impl TextStopScanner {
    /// The stop strings.
    pub closed spec fn stops(&self) -> Seq<Seq<char>> {
        texts(self.stops@)
    }

    /// The text held back.
    pub closed spec fn pending(&self) -> Seq<char> {
        self.pending@
    }

    /// The stop string that matched.
    pub closed spec fn matched_stop(&self) -> Option<Seq<char>> {
        match self.matched {
            Some(s) => Some(s@),
            None => None,
        }
    }

    pub fn new(stops: Vec<String>) -> (r: Self)
        ensures
            r.stops() == texts(stops@),
            r.pending() == Seq::<char>::empty(),
            r.matched_stop() == None::<Seq<char>>,
    {
        Self { stops, pending: String::new(), matched: None }
    }

    pub fn matched(&self) -> (r: Option<&str>)
        ensures
            match r {
                Some(s) => self.matched_stop() == Some(s@),
                None => self.matched_stop() == None::<Seq<char>>,
            },
    {
        match &self.matched {
            Some(s) => Some(s.as_str()),
            None => None,
        }
    }

    /// Feed a text delta. Once a stop has matched, further pushes emit nothing.
    pub fn push(&mut self, text: &str) -> (r: StopScan)
        ensures
            final(self).stops() == old(self).stops(),
            r.stopped == (final(self).matched_stop() is Some),
            old(self).matched_stop() is Some ==> {
                &&& r.emit@ == Seq::<char>::empty()
                &&& *final(self) == *old(self)
            },
            old(self).matched_stop() is None ==> scanned(
                old(self).stops(),
                old(self).pending() + text@,
                r.emit@,
                final(self).matched_stop(),
                final(self).pending(),
            ),
    {
        if self.matched.is_some() {
            return StopScan { emit: String::new(), stopped: true };
        }
        self.pending.append(text);
        let all: Vec<char> = to_chars(self.pending.as_str());

        // Earliest match across all stops wins; ties prefer the longer stop.
        let mut best: Option<(usize, usize)> = None;
        let mut best_len: usize = 0;
        let mut k: usize = 0;
        while k < self.stops.len()
            invariant
                k <= self.stops@.len(),
                all@ == self.pending@,
                match best {
                    Some((at, b)) => {
                        &&& b < k
                        &&& best_len == self.stops@[b as int]@.len()
                        &&& occurs_at(all@, self.stops@[b as int]@, at as int)
                        &&& forall|i: int, j: int|
                            0 <= j < k && i < at ==> !#[trigger] occurs_at(
                                all@,
                                self.stops@[j]@,
                                i,
                            )
                        &&& forall|j: int|
                            0 <= j < k && #[trigger] occurs_at(all@, self.stops@[j]@, at as int)
                                ==> self.stops@[j]@.len() <= best_len
                    },
                    None => forall|i: int, j: int|
                        0 <= j < k ==> !#[trigger] occurs_at(all@, self.stops@[j]@, i),
                },
            decreases self.stops@.len() - k,
        {
            let stop: Vec<char> = to_chars(self.stops[k].as_str());
            if let Some(at) = find(&all, &stop) {
                let better = match best {
                    None => true,
                    Some((best_at, _)) => at < best_at || (at == best_at && stop.len()
                        > best_len),
                };
                if better {
                    best = Some((at, k));
                    best_len = stop.len();
                }
            }
            k += 1;
        }
        if let Some((at, b)) = best {
            assert(at + best_len <= all.len());
            let emit = from_chars(&all, 0, at + best_len);
            self.matched = Some(self.stops[b].clone());
            self.pending = String::new();
            proof {
                let stops = texts(self.stops@);
                assert forall|j: int| 0 <= j < stops.len() implies stops[j]
                    == self.stops@[j]@ by {}
                assert(stops[b as int] == self.stops@[b as int]@);
                assert(stops.contains(self.stops@[b as int]@));
                assert(emit@.len() == at + best_len);
            }
            return StopScan { emit, stopped: true };
        }
        proof {
            let stops = texts(self.stops@);
            assert forall|i: int| !stop_at(stops, all@, i) by {
                assert forall|j: int| 0 <= j < stops.len() implies !occurs_at(
                    all@,
                    stops[j],
                    i,
                ) by {
                    assert(stops[j] == self.stops@[j]@);
                }
            }
        }

        // Hold back the longest suffix that is a prefix of some stop; emit the
        // rest (it can never become part of a match).
        let hold: usize = Self::hold_len(&self.stops, &all);
        let cut: usize = all.len() - hold;
        let emit = from_chars(&all, 0, cut);
        self.pending = from_chars(&all, cut, all.len());
        assert(all@ =~= emit@ + self.pending@);
        StopScan { emit, stopped: false }
    }

    /// The length of the longest tail of `all` that begins one of `stops`.
    fn hold_len(stops: &Vec<String>, all: &Vec<char>) -> (hold: usize)
        ensures
            hold <= all@.len(),
            hold == 0 || tail_begins_stop(texts(stops@), all@, hold as int),
            forall|n: int|
                hold < n <= all@.len() ==> !tail_begins_stop(texts(stops@), all@, n),
    {
        let mut longest: usize = 0;
        for k in 0..stops.len()
            invariant
                forall|j: int| 0 <= j < k ==> (#[trigger] stops@[j])@.len() <= longest,
        {
            let len: usize = stops[k].as_str().unicode_len();
            if len > longest {
                longest = len;
            }
        }
        let mut hold: usize = if longest < all.len() {
            longest
        } else {
            all.len()
        };
        proof {
            assert forall|n: int| hold < n <= all@.len() implies !tail_begins_stop(
                texts(stops@),
                all@,
                n,
            ) by {
                let tail = all@.subrange(all@.len() - n, all@.len() as int);
                assert forall|j: int| 0 <= j < texts(stops@).len() implies !occurs_at(
                    texts(stops@)[j],
                    tail,
                    0,
                ) by {
                    assert(texts(stops@)[j] == stops@[j]@);
                }
            }
        }
        while hold > 0
            invariant
                hold <= all@.len(),
                forall|n: int|
                    hold < n <= all@.len() ==> !tail_begins_stop(texts(stops@), all@, n),
            decreases hold,
        {
            let start: usize = all.len() - hold;
            let ghost tail = all@.subrange(all@.len() - hold, all@.len() as int);
            let mut k: usize = 0;
            while k < stops.len()
                invariant
                    k <= stops@.len(),
                    0 < hold <= all@.len(),
                    start == all@.len() - hold,
                    tail == all@.subrange(all@.len() - hold, all@.len() as int),
                    forall|j: int| 0 <= j < k ==> !occurs_at(#[trigger] stops@[j]@, tail, 0),
                    forall|n: int|
                        hold < n <= all@.len() ==> !tail_begins_stop(texts(stops@), all@, n),
                decreases stops@.len() - k,
            {
                let stop: Vec<char> = to_chars(stops[k].as_str());
                if hold <= stop.len() && Self::tail_matches(&stop, all, start) {
                    proof {
                        assert(stop@.subrange(0, hold as int) =~= tail);
                        assert(texts(stops@)[k as int] == stop@);
                        assert(occurs_at(texts(stops@)[k as int], tail, 0));
                    }
                    return hold;
                }
                proof {
                    if occurs_at(stop@, tail, 0) {
                        assert forall|i: int| 0 <= i < hold implies stop@[i] == all@[start
                            + i] by {
                            assert(stop@.subrange(0, hold as int)[i] == tail[i]);
                        }
                    }
                }
                k += 1;
            }
            proof {
                assert forall|j: int| 0 <= j < texts(stops@).len() implies !occurs_at(
                    texts(stops@)[j],
                    tail,
                    0,
                ) by {
                    assert(texts(stops@)[j] == stops@[j]@);
                }
            }
            hold -= 1;
        }
        hold
    }

    /// Whether `stop` begins with the tail of `all` from `start` on.
    fn tail_matches(stop: &Vec<char>, all: &Vec<char>, start: usize) -> (r: bool)
        requires
            start <= all@.len(),
            all@.len() - start <= stop@.len(),
        ensures
            r == forall|i: int| 0 <= i < all@.len() - start ==> stop@[i] == all@[start + i],
    {
        let mut i: usize = 0;
        while i < all.len() - start
            invariant
                start <= all@.len(),
                all@.len() - start <= stop@.len(),
                i <= all@.len() - start,
                forall|j: int| 0 <= j < i ==> stop@[j] == all@[start + j],
            decreases all@.len() - start - i,
        {
            if stop[i] != all[start + i] {
                return false;
            }
            i += 1;
        }
        true
    }

    /// Emit whatever is still held back (end of stream, no match).
    pub fn flush(&mut self) -> (r: String)
        ensures
            r@ == old(self).pending(),
            final(self).pending() == Seq::<char>::empty(),
            final(self).stops() == old(self).stops(),
            final(self).matched_stop() == old(self).matched_stop(),
    {
        let out = self.pending.clone();
        self.pending = String::new();
        out
    }

    /// Scan a complete text: returns the (possibly truncated) text and whether
    /// a stop matched inside it.
    pub fn scan_complete(&mut self, text: &str) -> (r: (String, bool))
        ensures
            final(self).stops() == old(self).stops(),
            r.1 == (final(self).matched_stop() is Some),
            old(self).matched_stop() is Some ==> {
                &&& r.0@ == Seq::<char>::empty()
                &&& *final(self) == *old(self)
            },
            old(self).matched_stop() is None ==> final(self).pending() == Seq::<char>::empty(),
            old(self).matched_stop() is None ==> match final(self).matched_stop() {
                Some(stop) => scanned(
                    old(self).stops(),
                    old(self).pending() + text@,
                    r.0@,
                    Some(stop),
                    Seq::empty(),
                ),
                None => {
                    &&& r.0@ == old(self).pending() + text@
                    &&& forall|i: int|
                        !stop_at(old(self).stops(), old(self).pending() + text@, i)
                },
            },
    {
        let scan = self.push(text);
        let mut out = scan.emit;
        if !scan.stopped {
            let rest = self.flush();
            out.append(rest.as_str());
        }
        (out, scan.stopped)
    }
}

/// Scanning determines its result: there is at most one way to split a text
/// into what is emitted, what matched and what is held back.
pub proof fn scan_is_determined(
    stops: Seq<Seq<char>>,
    text: Seq<char>,
    emit1: Seq<char>,
    matched1: Option<Seq<char>>,
    held1: Seq<char>,
    emit2: Seq<char>,
    matched2: Option<Seq<char>>,
    held2: Seq<char>,
)
    requires
        scanned(stops, text, emit1, matched1, held1),
        scanned(stops, text, emit2, matched2, held2),
    ensures
        emit1 == emit2,
        matched1 == matched2,
        held1 == held2,
{
    match (matched1, matched2) {
        (Some(s1), Some(s2)) => {
            let a1 = emit1.len() - s1.len();
            let a2 = emit2.len() - s2.len();
            let k1 = stops.index_of(s1);
            let k2 = stops.index_of(s2);
            assert(occurs_at(text, stops[k1], a1));
            assert(occurs_at(text, stops[k2], a2));
            assert(stop_at(stops, text, a1));
            assert(stop_at(stops, text, a2));
            assert(a1 == a2);
            assert(s1.len() == s2.len());
        },
        (Some(s1), None) => {
            let a1 = emit1.len() - s1.len();
            assert(occurs_at(text, stops[stops.index_of(s1)], a1));
            assert(stop_at(stops, text, a1));
        },
        (None, Some(s2)) => {
            let a2 = emit2.len() - s2.len();
            assert(occurs_at(text, stops[stops.index_of(s2)], a2));
            assert(stop_at(stops, text, a2));
        },
        (None, None) => {
            assert(held1.len() == held2.len());
            assert(held1 =~= text.subrange(text.len() - held1.len(), text.len() as int));
            assert(held2 =~= text.subrange(text.len() - held2.len(), text.len() as int));
            assert(emit1 =~= text.subrange(0, text.len() - held1.len()));
            assert(emit2 =~= text.subrange(0, text.len() - held2.len()));
        },
    }
}

/// What was emitted without a match can never become part of one: whatever
/// text follows, no stop string stands in it before the held-back tail.
pub proof fn emitted_text_is_safe(
    stops: Seq<Seq<char>>,
    text: Seq<char>,
    emit: Seq<char>,
    held: Seq<char>,
    more: Seq<char>,
    at: int,
)
    requires
        scanned(stops, text, emit, None, held),
        at < emit.len(),
    ensures
        !stop_at(stops, text + more, at),
{
    if stop_at(stops, text + more, at) {
        let k = choose|k: int|
            0 <= k < stops.len() && #[trigger] occurs_at(text + more, stops[k], at);
        let stop = stops[k];
        let whole = text + more;
        assert(whole.subrange(at, at + stop.len()) == stop);
        if at + stop.len() <= text.len() {
            assert(text.subrange(at, at + stop.len()) =~= whole.subrange(at, at + stop.len()));
            assert(occurs_at(text, stops[k], at));
            assert(stop_at(stops, text, at));
        } else {
            let n = text.len() - at;
            let tail = text.subrange(text.len() - n, text.len() as int);
            assert(stop.subrange(0, tail.len() as int) =~= tail) by {
                assert forall|i: int| 0 <= i < n implies stop[i] == tail[i] by {
                    assert(stop[i] == whole.subrange(at, at + stop.len())[i]);
                }
            }
            assert(occurs_at(stops[k], tail, 0));
            assert(tail_begins_stop(stops, text, n));
        }
    }
}

/// A stop string stands in the whole text behind `front` exactly where it
/// stands in the rest.
proof fn occurrence_behind(front: Seq<char>, rest: Seq<char>, pat: Seq<char>, at: int)
    ensures
        at >= 0 ==> occurs_at(front + rest, pat, front.len() + at) == occurs_at(rest, pat, at),
{
    if at >= 0 && at + pat.len() <= rest.len() {
        assert((front + rest).subrange(front.len() + at, front.len() + at + pat.len())
            =~= rest.subrange(at, at + pat.len()));
    }
}

/// Where the text is cut into pieces does not matter: scanning a first piece
/// without a match, and then the held-back tail with the rest, gives in all
/// what scanning the whole text at once gives.
pub proof fn scanning_in_pieces(
    stops: Seq<Seq<char>>,
    first: Seq<char>,
    rest: Seq<char>,
    emit1: Seq<char>,
    held1: Seq<char>,
    emit2: Seq<char>,
    matched: Option<Seq<char>>,
    held2: Seq<char>,
)
    requires
        scanned(stops, first, emit1, None, held1),
        scanned(stops, held1 + rest, emit2, matched, held2),
    ensures
        scanned(stops, first + rest, emit1 + emit2, matched, held2),
{
    let whole = first + rest;
    let tail = held1 + rest;
    assert(whole =~= emit1 + tail);
    assert forall|i: int| i < emit1.len() implies !stop_at(stops, whole, i) by {
        emitted_text_is_safe(stops, first, emit1, held1, rest, i);
    }
    assert forall|i: int| i >= emit1.len() implies stop_at(stops, whole, i) == stop_at(
        stops,
        tail,
        i - emit1.len(),
    ) by {
        assert forall|k: int| 0 <= k < stops.len() implies occurs_at(whole, stops[k], i)
            == occurs_at(tail, stops[k], i - emit1.len()) by {
            occurrence_behind(emit1, tail, stops[k], i - emit1.len());
        }
        if stop_at(stops, whole, i) {
            let k = choose|k: int|
                0 <= k < stops.len() && #[trigger] occurs_at(whole, stops[k], i);
            assert(occurs_at(tail, stops[k], i - emit1.len()));
        }
        if stop_at(stops, tail, i - emit1.len()) {
            let k = choose|k: int|
                0 <= k < stops.len() && #[trigger] occurs_at(tail, stops[k], i - emit1.len());
            assert(occurs_at(whole, stops[k], i));
        }
    }
    match matched {
        Some(stop) => {
            let at2 = emit2.len() - stop.len();
            let at = emit1.len() + at2;
            occurrence_behind(emit1, tail, stop, at2);
            assert forall|k: int|
                0 <= k < stops.len() && #[trigger] occurs_at(
                    whole,
                    stops[k],
                    at,
                ) implies stops[k].len() <= stop.len() by {
                occurrence_behind(emit1, tail, stops[k], at2);
            }
            assert((emit1 + emit2) =~= whole.subrange(0, (emit1 + emit2).len() as int));
            assert((emit1 + emit2).len() - stop.len() == at);
            assert(ends_text(stops, whole, at, stop));
        },
        None => {
            assert(whole =~= (emit1 + emit2) + held2);
            assert forall|i: int| !stop_at(stops, whole, i) by {
                if i >= emit1.len() {
                    assert(!stop_at(stops, tail, i - emit1.len()));
                }
            }
            assert forall|n: int| 0 <= n <= tail.len() implies tail_begins_stop(stops, whole, n)
                == tail_begins_stop(stops, tail, n) by {
                assert(whole.subrange(whole.len() - n, whole.len() as int) =~= tail.subrange(
                    tail.len() - n,
                    tail.len() as int,
                ));
            }
            assert forall|n: int| held2.len() < n <= whole.len() implies !tail_begins_stop(
                stops,
                whole,
                n,
            ) by {
                if n > tail.len() && tail_begins_stop(stops, whole, n) {
                    // The tail would reach into `emit1`, so its part inside
                    // `first` would have been held back.
                    let t = whole.subrange(whole.len() - n, whole.len() as int);
                    let k = choose|k: int|
                        0 <= k < stops.len() && #[trigger] occurs_at(stops[k], t, 0);
                    let m = n - rest.len();
                    let u = first.subrange(first.len() - m, first.len() as int);
                    assert(stops[k].subrange(0, u.len() as int) =~= u) by {
                        assert forall|i: int| 0 <= i < m implies stops[k][i] == u[i] by {
                            assert(stops[k].subrange(0, t.len() as int)[i] == t[i]);
                        }
                    }
                    assert(occurs_at(stops[k], u, 0));
                    assert(tail_begins_stop(stops, first, m));
                }
            }
        },
    }
}

/// No text is lost or made up: until a stop string is found, what is passed on and
/// what is held back is what came in; flushing passes on what was held back; and
/// nothing is passed on any more once a stop string was found.
pub proof fn no_text_is_lost(
    scanner: &mut TextStopScanner,
    later: &mut TextStopScanner,
    text: &str,
    more: &str,
    first: StopScan,
    second: StopScan,
    rest: String,
)
    requires
        call_ensures(TextStopScanner::push, (scanner, text), first),
        *final(scanner) == *old(later),
        call_ensures(TextStopScanner::push, (later, more), second) || call_ensures(
            TextStopScanner::flush,
            (later,),
            rest,
        ),
        old(scanner).matched_stop() is None,
    ensures
        !first.stopped ==> first.emit@ + final(scanner).pending() == old(scanner).pending() + text@,
        first.stopped ==> final(scanner).pending().len() == 0,
        first.stopped && call_ensures(TextStopScanner::push, (later, more), second)
            ==> second.stopped && second.emit@.len() == 0,
        !first.stopped && call_ensures(TextStopScanner::flush, (later,), rest) ==> first.emit@
            + rest@ == old(scanner).pending() + text@,
{
}

} // verus!
