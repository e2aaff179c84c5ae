use vstd::prelude::*;

use crate::types::{Edge, EventBody, MidiError, TimedEvent};

verus! {

/// The timeline builder's running state: the absolute tick position, the
/// tempo scalar in microseconds per tick, and the note edges collected so
/// far.
pub ghost struct TlState {
    pub tick: u32,
    pub mpt: u32,
    pub edges: Seq<Edge>,
}

pub open spec fn tl_init() -> TlState {
    TlState { tick: 0, mpt: 0, edges: Seq::empty() }
}

/// One event of the timeline builder: advance the absolute tick, update the
/// tempo scalar on a tempo meta (integer division by ticks per beat, the
/// remainder discarded), append an edge for each note message, and ignore
/// everything else.  A note-on with velocity zero arrives as a release.
pub open spec fn tl_step(st: TlState, ev: TimedEvent, tpb: u16) -> Result<TlState, MidiError> {
    if st.tick + ev.delta > u32::MAX {
        Err(MidiError::TickOverflow)
    } else {
        let t = (st.tick + ev.delta) as u32;
        match ev.body {
            EventBody::Tempo(us) => if tpb == 0 {
                Err(MidiError::ZeroTicksPerBeat)
            } else {
                Ok(TlState { tick: t, mpt: (us as int / tpb as int) as u32, edges: st.edges })
            },
            EventBody::NoteOn { key, vel } => Ok(
                TlState {
                    tick: t,
                    mpt: st.mpt,
                    edges: st.edges.push(Edge { tick: t, key, is_press: vel != 0 }),
                },
            ),
            EventBody::NoteOff { key } => Ok(
                TlState {
                    tick: t,
                    mpt: st.mpt,
                    edges: st.edges.push(Edge { tick: t, key, is_press: false }),
                },
            ),
            EventBody::Other => Ok(TlState { tick: t, mpt: st.mpt, edges: st.edges }),
        }
    }
}

/// The builder's state after the whole event stream, or the first failure.
pub open spec fn tl_run(events: Seq<TimedEvent>, tpb: u16) -> Result<TlState, MidiError>
    decreases events.len(),
{
    if events.len() == 0 {
        Ok(tl_init())
    } else {
        match tl_run(events.drop_last(), tpb) {
            Ok(st) => tl_step(st, events.last(), tpb),
            Err(e) => Err(e),
        }
    }
}

proof fn lemma_tl_run_err(events: Seq<TimedEvent>, tpb: u16, n: int, e: MidiError)
    requires
        0 <= n <= events.len(),
        tl_run(events.take(n), tpb) == Err::<TlState, MidiError>(e),
    ensures
        tl_run(events, tpb) == Err::<TlState, MidiError>(e),
    decreases events.len() - n,
{
    if n < events.len() {
        assert(events.take(n + 1).drop_last() =~= events.take(n));
        lemma_tl_run_err(events, tpb, n + 1, e);
    } else {
        assert(events.take(n) =~= events);
    }
}

/// Walk the event stream once: accumulate absolute ticks, keep the tempo
/// scalar up to date, and collect the note edges.  Returns the edges and the
/// final tempo scalar, or the error of the first event that cannot be
/// processed.
pub fn build_timeline(events: &Vec<TimedEvent>, tpb: u16) -> (r: Result<(Vec<Edge>, u32), MidiError>)
    ensures
        match r {
            Ok(p) => tl_run(events@, tpb) matches Ok(st) && p.0@ == st.edges && p.1 == st.mpt,
            Err(e) => tl_run(events@, tpb) == Err::<TlState, MidiError>(e),
        },
{
    let mut tick: u32 = 0;
    let mut mpt: u32 = 0;
    let mut edges: Vec<Edge> = Vec::new();
    let mut i: usize = 0;
    while i < events.len()
        invariant
            i <= events@.len(),
            tl_run(events@.take(i as int), tpb) == Ok::<TlState, MidiError>(
                TlState { tick, mpt, edges: edges@ },
            ),
        decreases events@.len() - i,
    {
        let ev = events[i];
        proof {
            assert(events@.take(i as int + 1).drop_last() =~= events@.take(i as int));
            assert(events@.take(i as int + 1).last() == events@[i as int]);
        }
        if ev.delta > u32::MAX - tick {
            proof {
                lemma_tl_run_err(events@, tpb, i as int + 1, MidiError::TickOverflow);
            }
            return Err(MidiError::TickOverflow);
        }
        tick = tick + ev.delta;
        match ev.body {
            EventBody::Tempo(us) => {
                if tpb == 0 {
                    proof {
                        lemma_tl_run_err(events@, tpb, i as int + 1, MidiError::ZeroTicksPerBeat);
                    }
                    return Err(MidiError::ZeroTicksPerBeat);
                }
                mpt = us / (tpb as u32);
            },
            EventBody::NoteOn { key, vel } => {
                edges.push(Edge { tick, key, is_press: vel != 0 });
            },
            EventBody::NoteOff { key } => {
                edges.push(Edge { tick, key, is_press: false });
            },
            EventBody::Other => {},
        }
        i = i + 1;
    }
    proof {
        assert(events@.take(events@.len() as int) =~= events@);
    }
    Ok((edges, mpt))
}

}
