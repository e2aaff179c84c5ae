use vstd::prelude::*;

use crate::types::Tone;

verus! {

/// The two bytes of a `u16` in little-endian order.
pub open spec fn u16_le(x: u16) -> Seq<u8> {
    seq![(x & 0xff) as u8, ((x >> 8) & 0xff) as u8]
}

/// The four bytes of a `u32` in little-endian order.
pub open spec fn u32_le(x: u32) -> Seq<u8> {
    seq![
        (x & 0xff) as u8,
        ((x >> 8) & 0xff) as u8,
        ((x >> 16) & 0xff) as u8,
        ((x >> 24) & 0xff) as u8,
    ]
}

/// The six-byte wire record of one tone: frequency, then duration.
pub open spec fn tone_bytes(t: Tone) -> Seq<u8> {
    u16_le(t.frequency) + u32_le(t.duration)
}

/// The packed output stream: the records in emission order, with no
/// framing, header or terminator.
pub open spec fn spec_serialize(tones: Seq<Tone>) -> Seq<u8>
    decreases tones.len(),
{
    if tones.len() == 0 {
        Seq::empty()
    } else {
        tone_bytes(tones[0]) + spec_serialize(tones.drop_first())
    }
}

proof fn lemma_serialize_push(tones: Seq<Tone>, t: Tone)
    ensures
        spec_serialize(tones.push(t)) == spec_serialize(tones) + tone_bytes(t),
    decreases tones.len(),
{
    if tones.len() == 0 {
        assert(tones.push(t)[0] == t);
        assert(tones.push(t).drop_first() =~= Seq::<Tone>::empty());
        assert(spec_serialize(tones.push(t)) == tone_bytes(t) + spec_serialize(
            Seq::<Tone>::empty(),
        ));
        assert(tone_bytes(t) + Seq::<u8>::empty() =~= Seq::<u8>::empty() + tone_bytes(t));
    } else {
        assert(tones.push(t).drop_first() =~= tones.drop_first().push(t));
        lemma_serialize_push(tones.drop_first(), t);
        assert(tone_bytes(tones[0]) + (spec_serialize(tones.drop_first()) + tone_bytes(t))
            =~= (tone_bytes(tones[0]) + spec_serialize(tones.drop_first())) + tone_bytes(t));
    }
}

/// Output size law: the serialized stream is exactly six bytes per tone, so
/// its length is always a multiple of six.
pub proof fn lemma_serialize_len(tones: Seq<Tone>)
    ensures
        spec_serialize(tones).len() == 6 * tones.len(),
    decreases tones.len(),
{
    if tones.len() > 0 {
        lemma_serialize_len(tones.drop_first());
    }
}

/// Encode each tone as its six-byte record, in order.
pub fn serialize_tones(tones: &Vec<Tone>) -> (r: Vec<u8>)
    ensures
        r@ == spec_serialize(tones@),
        r@.len() == 6 * tones@.len(),
{
    let mut out: Vec<u8> = Vec::new();
    let mut i: usize = 0;
    while i < tones.len()
        invariant
            i <= tones@.len(),
            out@ == spec_serialize(tones@.take(i as int)),
            out@.len() == 6 * i,
        decreases tones@.len() - i,
    {
        let t = tones[i];
        let f = t.frequency;
        let d = t.duration;
        proof {
            assert((f & 0xff) < 256 && ((f >> 8) & 0xff) < 256) by (bit_vector);
            assert((d & 0xff) < 256 && ((d >> 8) & 0xff) < 256 && ((d >> 16) & 0xff) < 256 && ((d
                >> 24) & 0xff) < 256) by (bit_vector);
        }
        out.push((f & 0xff) as u8);
        out.push(((f >> 8) & 0xff) as u8);
        out.push((d & 0xff) as u8);
        out.push(((d >> 8) & 0xff) as u8);
        out.push(((d >> 16) & 0xff) as u8);
        out.push(((d >> 24) & 0xff) as u8);
        proof {
            lemma_serialize_push(tones@.take(i as int), tones@[i as int]);
            assert(tones@.take(i as int).push(tones@[i as int]) =~= tones@.take(i as int + 1));
            assert(out@ =~= spec_serialize(tones@.take(i as int)) + tone_bytes(tones@[i as int]));
        }
        i = i + 1;
    }
    proof {
        assert(tones@.take(tones@.len() as int) =~= tones@);
    }
    out
}

/// The tone a six-byte record denotes.
pub open spec fn tone_of_bytes(b: Seq<u8>) -> Tone {
    Tone {
        frequency: (b[0] + b[1] * 0x100) as u16,
        duration: (b[2] + b[3] * 0x100 + b[4] * 0x10000 + b[5] * 0x1000000) as u32,
    }
}

/// Read a byte stream back as consecutive little-endian `(u16, u32)`
/// records; `None` when a trailing fragment is left over.
pub open spec fn spec_parse_tones(bytes: Seq<u8>) -> Option<Seq<Tone>>
    decreases bytes.len(),
{
    if bytes.len() == 0 {
        Some(Seq::empty())
    } else if bytes.len() < 6 {
        None
    } else {
        match spec_parse_tones(bytes.skip(6)) {
            Some(rest) => Some(seq![tone_of_bytes(bytes)] + rest),
            None => None,
        }
    }
}

proof fn lemma_u16_le_round_trip(x: u16)
    ensures
        (x & 0xff) + ((x >> 8) & 0xff) * 0x100 == x,
{
    assert((x & 0xff) + ((x >> 8) & 0xff) * 0x100 == x) by (bit_vector);
}

proof fn lemma_u32_le_round_trip(x: u32)
    ensures
        (x & 0xff) + ((x >> 8) & 0xff) * 0x100 + ((x >> 16) & 0xff) * 0x10000 + ((x >> 24) & 0xff)
            * 0x1000000 == x,
{
    assert((x & 0xff) + ((x >> 8) & 0xff) * 0x100 + ((x >> 16) & 0xff) * 0x10000 + ((x >> 24)
        & 0xff) * 0x1000000 == x) by (bit_vector);
}

proof fn lemma_tone_bytes_round_trip(t: Tone, rest: Seq<u8>)
    ensures
        tone_of_bytes(tone_bytes(t) + rest) == t,
{
    let b = tone_bytes(t) + rest;
    let f = t.frequency;
    let d = t.duration;
    assert((f & 0xff) < 256 && ((f >> 8) & 0xff) < 256) by (bit_vector);
    assert((d & 0xff) < 256 && ((d >> 8) & 0xff) < 256 && ((d >> 16) & 0xff) < 256 && ((d >> 24)
        & 0xff) < 256) by (bit_vector);
    assert(b[0] == (f & 0xff) as u8 && b[1] == ((f >> 8) & 0xff) as u8);
    assert(b[2] == (d & 0xff) as u8 && b[3] == ((d >> 8) & 0xff) as u8 && b[4] == ((d >> 16)
        & 0xff) as u8 && b[5] == ((d >> 24) & 0xff) as u8);
    lemma_u16_le_round_trip(f);
    lemma_u32_le_round_trip(d);
}

/// Round trip of encoding: decoding the serialized stream yields the very
/// tone list the reducer emitted, in order.
pub proof fn lemma_serialize_round_trip(tones: Seq<Tone>)
    ensures
        spec_parse_tones(spec_serialize(tones)) == Some(tones),
    decreases tones.len(),
{
    if tones.len() == 0 {
        assert(spec_serialize(tones) =~= Seq::<u8>::empty());
    } else {
        let t = tones[0];
        let rest = tones.drop_first();
        let bytes = spec_serialize(tones);
        lemma_serialize_len(rest);
        lemma_serialize_len(tones);
        assert(bytes == tone_bytes(t) + spec_serialize(rest));
        assert(bytes.skip(6) =~= spec_serialize(rest));
        lemma_serialize_round_trip(rest);
        lemma_tone_bytes_round_trip(t, spec_serialize(rest));
        assert(seq![tone_of_bytes(bytes)] + rest =~= tones);
    }
}

proof fn lemma_parse_ragged(bytes: Seq<u8>)
    requires
        bytes.len() % 6 != 0,
    ensures
        spec_parse_tones(bytes) is None,
    decreases bytes.len(),
{
    if bytes.len() >= 6 {
        assert(bytes.skip(6).len() == bytes.len() - 6);
        lemma_parse_ragged(bytes.skip(6));
    }
}

/// Decode a packed stream back into tones; `None` exactly when the length
/// is not a multiple of six.
pub fn decode_tones(bytes: &Vec<u8>) -> (r: Option<Vec<Tone>>)
    ensures
        match r {
            Some(tones) => spec_parse_tones(bytes@) == Some(tones@),
            None => spec_parse_tones(bytes@) is None,
        },
{
    if bytes.len() % 6 != 0 {
        proof {
            lemma_parse_ragged(bytes@);
        }
        return None;
    }
    let mut out: Vec<Tone> = Vec::new();
    let mut i: usize = bytes.len();
    while i > 0
        invariant
            i <= bytes@.len(),
            i % 6 == 0,
            bytes@.len() % 6 == 0,
            spec_parse_tones(bytes@.skip(i as int)) == Some(out@),
        decreases i,
    {
        i = i - 6;
        let frequency = (bytes[i] as u16) + (bytes[i + 1] as u16) * 0x100;
        let duration = (bytes[i + 2] as u32) + (bytes[i + 3] as u32) * 0x100 + (bytes[i + 4]
            as u32) * 0x10000 + (bytes[i + 5] as u32) * 0x1000000;
        let t = Tone { frequency, duration };
        out.insert(0, t);
        proof {
            let tail = bytes@.skip(i as int);
            assert(tail.len() >= 6);
            assert(tail.skip(6) =~= bytes@.skip(i as int + 6));
            assert(tone_of_bytes(tail) == t) by {
                assert(tail[0] == bytes@[i as int] && tail[1] == bytes@[i as int + 1] && tail[2]
                    == bytes@[i as int + 2] && tail[3] == bytes@[i as int + 3] && tail[4]
                    == bytes@[i as int + 4] && tail[5] == bytes@[i as int + 5]);
            }
            assert(out@ =~= seq![tone_of_bytes(tail)] + out@.drop_first());
        }
    }
    proof {
        assert(bytes@.skip(0) =~= bytes@);
    }
    Some(out)
}

}
