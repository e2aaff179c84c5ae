use vstd::prelude::*;

use crate::frequency::{note_to_frequency, spec_note_to_frequency};
use crate::sorter::{edge_le, sorted_edges};
use crate::types::{ActiveNote, Edge, Tone};

verus! {

/// The reducer's state: the note it is holding, if any, and the tones
/// emitted so far.
pub ghost struct RedState {
    pub active: Option<ActiveNote>,
    pub out: Seq<Tone>,
}

/// The duration, in microseconds, of a tone covering `span` ticks under the
/// tempo scalar `mpt`; zero where the product cannot be represented (runs
/// guarded by `reduce_ok` never reach that case).
pub open spec fn spec_duration(span: int, mpt: u32) -> u32 {
    if 0 <= span * mpt <= u32::MAX {
        (span * mpt) as u32
    } else {
        0
    }
}

pub open spec fn spec_tone(key: u8, span: int, mpt: u32) -> Tone {
    Tone { frequency: spec_note_to_frequency(key), duration: spec_duration(span, mpt) }
}

/// One transition of the monophonic reducer.  A release of the held key
/// emits its tone and frees the voice; a press always takes a free voice,
/// and preempts the held note only when strictly lower in pitch.  A
/// preemption emits a tone whose frequency comes from the incoming key but
/// whose duration covers the preempted note's span — the wire format
/// reproduces that coupling exactly.  Everything else is ignored.
pub open spec fn red_step(st: RedState, e: Edge, mpt: u32) -> RedState {
    match st.active {
        Some(a) => {
            if !e.is_press && e.key == a.key {
                RedState { active: None, out: st.out.push(spec_tone(e.key, e.tick - a.start_tick, mpt)) }
            } else if e.is_press && e.key < a.key {
                RedState {
                    active: Some(ActiveNote { key: e.key, start_tick: e.tick }),
                    out: st.out.push(spec_tone(e.key, e.tick - a.start_tick, mpt)),
                }
            } else {
                st
            }
        },
        None => {
            if e.is_press {
                RedState { active: Some(ActiveNote { key: e.key, start_tick: e.tick }), out: st.out }
            } else {
                st
            }
        },
    }
}

pub open spec fn red_init() -> RedState {
    RedState { active: None, out: Seq::empty() }
}

/// The reducer's state after the whole edge sequence.
pub open spec fn red_run(edges: Seq<Edge>, mpt: u32) -> RedState
    decreases edges.len(),
{
    if edges.len() == 0 {
        red_init()
    } else {
        red_step(red_run(edges.drop_last(), mpt), edges.last(), mpt)
    }
}

/// The tone list the reducer emits; a note still held at the end of the
/// stream is discarded.
pub open spec fn spec_reduce(edges: Seq<Edge>, mpt: u32) -> Seq<Tone> {
    red_run(edges, mpt).out
}

/// Whether the step on edge `e` emits a tone.
pub open spec fn red_emits(st: RedState, e: Edge) -> bool {
    match st.active {
        Some(a) => (!e.is_press && e.key == a.key) || (e.is_press && e.key < a.key),
        None => false,
    }
}

/// The tick span the emitted tone covers.
pub open spec fn red_span(st: RedState, e: Edge) -> int {
    match st.active {
        Some(a) => e.tick - a.start_tick,
        None => 0,
    }
}

/// Every emission along the run covers a non-negative span whose product
/// with the tempo scalar fits in 32 bits.
pub open spec fn reduce_ok(edges: Seq<Edge>, mpt: u32) -> bool
    decreases edges.len(),
{
    if edges.len() == 0 {
        true
    } else {
        reduce_ok(edges.drop_last(), mpt) && {
            let st = red_run(edges.drop_last(), mpt);
            red_emits(st, edges.last()) ==> 0 <= red_span(st, edges.last()) && red_span(
                st,
                edges.last(),
            ) * mpt <= u32::MAX
        }
    }
}

proof fn lemma_reduce_ok_prefix(edges: Seq<Edge>, mpt: u32, n: int)
    requires
        0 <= n <= edges.len(),
        reduce_ok(edges, mpt),
    ensures
        reduce_ok(edges.take(n), mpt),
    decreases edges.len(),
{
    if n == edges.len() {
        assert(edges.take(n) =~= edges);
    } else {
        assert(edges.drop_last().take(n) =~= edges.take(n));
        lemma_reduce_ok_prefix(edges.drop_last(), mpt, n);
    }
}

/// Walk the edges in order and emit the monophonic tone list.  Returns
/// `None` exactly when some emission's span is negative or its duration
/// does not fit in 32 bits.
pub fn reduce_edges(edges: &Vec<Edge>, mpt: u32) -> (r: Option<Vec<Tone>>)
    ensures
        match r {
            Some(tones) => reduce_ok(edges@, mpt) && tones@ == spec_reduce(edges@, mpt),
            None => !reduce_ok(edges@, mpt),
        },
{
    let mut out: Vec<Tone> = Vec::new();
    let mut active: Option<ActiveNote> = None;
    let mut i: usize = 0;
    while i < edges.len()
        invariant
            i <= edges@.len(),
            reduce_ok(edges@.take(i as int), mpt),
            red_run(edges@.take(i as int), mpt) == (RedState { active, out: out@ }),
        decreases edges@.len() - i,
    {
        let e = edges[i];
        proof {
            assert(edges@.take(i as int + 1).drop_last() =~= edges@.take(i as int));
            assert(edges@.take(i as int + 1).last() == edges@[i as int]);
        }
        match active {
            Some(a) => {
                if (!e.is_press && e.key == a.key) || (e.is_press && e.key < a.key) {
                    if e.tick < a.start_tick {
                        proof {
                            if reduce_ok(edges@, mpt) {
                                lemma_reduce_ok_prefix(edges@, mpt, i as int + 1);
                            }
                        }
                        return None;
                    }
                    let span = e.tick - a.start_tick;
                    proof {
                        vstd::arithmetic::mul::lemma_mul_upper_bound(
                            span as int,
                            u32::MAX as int,
                            mpt as int,
                            u32::MAX as int,
                        );
                    }
                    let prod = (span as u64) * (mpt as u64);
                    if prod > u32::MAX as u64 {
                        proof {
                            if reduce_ok(edges@, mpt) {
                                lemma_reduce_ok_prefix(edges@, mpt, i as int + 1);
                            }
                        }
                        return None;
                    }
                    out.push(Tone { frequency: note_to_frequency(e.key), duration: prod as u32 });
                    if e.is_press {
                        active = Some(ActiveNote { key: e.key, start_tick: e.tick });
                    } else {
                        active = None;
                    }
                }
            },
            None => {
                if e.is_press {
                    active = Some(ActiveNote { key: e.key, start_tick: e.tick });
                }
            },
        }
        i = i + 1;
    }
    proof {
        assert(edges@.take(edges@.len() as int) =~= edges@);
    }
    Some(out)
}

/// How many notes the reducer holds in a state: one or none.
pub open spec fn spec_active_count(st: RedState) -> nat {
    match st.active {
        Some(_) => 1nat,
        None => 0nat,
    }
}

/// Monophony: after any prefix of the edge stream, the reducer holds at
/// most one active note.
pub proof fn lemma_monophony(edges: Seq<Edge>, mpt: u32, n: int)
    requires
        0 <= n <= edges.len(),
    ensures
        spec_active_count(red_run(edges.take(n), mpt)) <= 1,
{
}

/// Same-tick presses arrive in nondecreasing key order.  Under the sorter's
/// chosen order this is about the input's tie-break; the duration law below
/// needs it, since a lower press landing on the very tick of the held
/// note's press would emit a zero-width tone.
pub open spec fn presses_tick_ordered(s: Seq<Edge>) -> bool {
    forall|i: int, j: int|
        0 <= i < j < s.len() && s[i].is_press && s[j].is_press && s[i].tick == s[j].tick
            ==> s[i].key <= s[j].key
}

proof fn lemma_reduce_trace(edges: Seq<Edge>, mpt: u32)
    requires
        sorted_edges(edges),
        presses_tick_ordered(edges),
        reduce_ok(edges, mpt),
        mpt >= 1,
    ensures
        match red_run(edges, mpt).active {
            Some(a) => exists|k: int|
                0 <= k < edges.len() && edges[k].is_press && edges[k].key == a.key && edges[k].tick
                    == a.start_tick,
            None => true,
        },
        forall|j: int|
            0 <= j < spec_reduce(edges, mpt).len() ==> (#[trigger] spec_reduce(edges, mpt)[j]).duration
                >= mpt,
    decreases edges.len(),
{
    if edges.len() > 0 {
        let s0 = edges.drop_last();
        let e = edges.last();
        let n = edges.len() - 1;
        assert(forall|k: int| 0 <= k < s0.len() ==> s0[k] == edges[k]);
        assert(sorted_edges(s0));
        assert(presses_tick_ordered(s0));
        lemma_reduce_trace(s0, mpt);
        let st = red_run(s0, mpt);
        let stn = red_run(edges, mpt);
        assert(stn == red_step(st, e, mpt));
        if red_emits(st, e) {
            let a = st.active->Some_0;
            let k = choose|k: int|
                0 <= k < s0.len() && s0[k].is_press && s0[k].key == a.key && s0[k].tick
                    == a.start_tick;
            assert(edge_le(edges[k], edges[n]));
            let span = red_span(st, e);
            assert(span >= 0);
            if e.tick == a.start_tick {
                if e.is_press {
                    assert(edges[k].key <= edges[n].key);
                    assert(false);
                } else {
                    assert(!edge_le(edges[k], edges[n]));
                    assert(false);
                }
            }
            assert(span >= 1);
            assert(span * mpt >= 1 * mpt) by {
                vstd::arithmetic::mul::lemma_mul_inequality(1, span, mpt as int);
            }
            assert(spec_tone(e.key, span, mpt).duration >= mpt);
            assert(stn.out == st.out.push(spec_tone(e.key, span, mpt)));
            assert forall|j: int| 0 <= j < stn.out.len() implies (#[trigger] stn.out[j]).duration
                >= mpt by {
                if j < st.out.len() {
                    assert(stn.out[j] == spec_reduce(s0, mpt)[j]);
                } else {
                    assert(stn.out[j] == spec_tone(e.key, span, mpt));
                }
            }
        } else {
            assert(stn.out == st.out);
            assert forall|j: int| 0 <= j < stn.out.len() implies (#[trigger] stn.out[j]).duration
                >= mpt by {
                assert(stn.out[j] == spec_reduce(s0, mpt)[j]);
            }
        }
    }
}

/// Duration positivity: over sorted edges whose same-tick presses carry
/// nondecreasing keys, with a positive tempo scalar and representable
/// durations, every emitted tone lasts strictly longer than zero
/// microseconds.
pub proof fn lemma_duration_positive(edges: Seq<Edge>, mpt: u32)
    requires
        sorted_edges(edges),
        presses_tick_ordered(edges),
        reduce_ok(edges, mpt),
        mpt >= 1,
    ensures
        forall|j: int|
            0 <= j < spec_reduce(edges, mpt).len() ==> (#[trigger] spec_reduce(edges, mpt)[j]).duration
                > 0,
{
    lemma_reduce_trace(edges, mpt);
}

}
