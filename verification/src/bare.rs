//! Variable-length unsigned integers, the primitive of the wire
//! encoding: seven value bits per byte, least significant group first,
//! the high bit of a byte marking that more bytes follow.

use vstd::prelude::*;

verus! {

/// The encoding of `v`: base-128 groups, least significant first, each
/// non-final byte carrying the continuation bit.
pub open spec fn varint_bytes(v: nat) -> Seq<u8>
    decreases v,
{
    if v < 128 {
        seq![v as u8]
    } else {
        seq![(v % 128 + 128) as u8] + varint_bytes(v / 128)
    }
}

/// What reading a variable-length integer from the front of `bytes`
/// yields: the value and how many bytes it occupied.  Only the canonical
/// form is read: a continuation must carry a nonzero remainder, so every
/// value has exactly one accepted encoding.  Bytes that end inside the
/// integer, or spell a non-canonical form, yield nothing.
pub open spec fn varint_decode(bytes: Seq<u8>) -> Option<(nat, int)>
    decreases bytes.len(),
{
    if bytes.len() == 0 {
        None
    } else if bytes[0] < 128 {
        Some((bytes[0] as nat, 1))
    } else {
        match varint_decode(bytes.subrange(1, bytes.len() as int)) {
            Some((v, l)) => if v >= 1 {
                Some((((bytes[0] - 128) as nat + 128 * v) as nat, l + 1))
            } else {
                None
            },
            None => None,
        }
    }
}

/// True when `s` begins with `prefix`.
pub open spec fn starts_with(prefix: Seq<u8>, s: Seq<u8>) -> bool {
    s.len() >= prefix.len() && s.subrange(0, prefix.len() as int) == prefix
}

/// A stream that begins with `a + b` begins with `a`, and with `b` once
/// `a` is consumed.
pub proof fn lemma_starts_with_concat(a: Seq<u8>, b: Seq<u8>, s: Seq<u8>)
    requires
        starts_with(a + b, s),
    ensures
        starts_with(a, s),
        starts_with(b, s.subrange(a.len() as int, s.len() as int)),
{
    assert forall|y: int| 0 <= y < (a + b).len() implies s[y] == (a + b)[y] by {
        assert(s.subrange(0, (a + b).len() as int)[y] == s[y]);
    }
    assert(s.subrange(0, a.len() as int) =~= a);
    let rest = s.subrange(a.len() as int, s.len() as int);
    assert(rest.subrange(0, b.len() as int) =~= b);
}

/// Reading the encoding of `v` back, whatever follows it, yields `v`
/// again and consumes exactly the encoding.
pub proof fn lemma_varint_round_trip(v: nat, rest: Seq<u8>)
    ensures
        varint_decode(varint_bytes(v) + rest) == Some((v, varint_bytes(v).len() as int)),
    decreases v,
{
    let bytes = varint_bytes(v) + rest;
    if v < 128 {
        assert(bytes[0] == v as u8);
    } else {
        assert(bytes[0] == (v % 128 + 128) as u8);
        assert(bytes[0] >= 128);
        assert(bytes.subrange(1, bytes.len() as int) =~= varint_bytes(v / 128) + rest);
        lemma_varint_round_trip(v / 128, rest);
        assert(v / 128 >= 1);
        assert((bytes[0] - 128) as nat == v % 128);
        assert(v % 128 + 128 * (v / 128) == v);
    }
}

/// What the decoder accepts is exactly an encoding: the bytes it
/// consumed are the canonical form of the value it read.
pub proof fn lemma_varint_canonical(bytes: Seq<u8>)
    ensures
        match varint_decode(bytes) {
            Some(vl) => {
                &&& 1 <= vl.1 <= bytes.len()
                &&& bytes.subrange(0, vl.1) == varint_bytes(vl.0)
            },
            None => true,
        },
    decreases bytes.len(),
{
    if bytes.len() == 0 {
    } else if bytes[0] < 128 {
        assert(bytes.subrange(0, 1) =~= seq![bytes[0]]);
    } else {
        let t = bytes.subrange(1, bytes.len() as int);
        lemma_varint_canonical(t);
        match varint_decode(t) {
            Some(vl) => {
                if vl.0 >= 1 {
                    let r = (bytes[0] - 128) as nat;
                    let value = (r + 128 * vl.0) as nat;
                    assert(value % 128 == r && value / 128 == vl.0) by (nonlinear_arith)
                        requires
                            r < 128,
                            vl.0 >= 1,
                            value == r + 128 * vl.0,
                    ;
                    assert(value >= 128) by (nonlinear_arith)
                        requires
                            vl.0 >= 1,
                            value == r + 128 * vl.0,
                    ;
                    assert(varint_bytes(value) == seq![(value % 128 + 128) as u8] + varint_bytes(value / 128));
                    assert(t.subrange(0, vl.1) == varint_bytes(vl.0));
                    assert(bytes.subrange(0, vl.1 + 1) =~= seq![bytes[0]] + t.subrange(0, vl.1));
                    assert((value % 128 + 128) as u8 == bytes[0]);
                    assert(bytes.subrange(0, vl.1 + 1) =~= varint_bytes(value));
                }
            },
            None => {},
        }
    }
}

/// Write the variable-length encoding of `value` onto `buffer`.
pub fn write_variable_length_integer(buffer: &mut Vec<u8>, value: u64)
    ensures
        final(buffer)@ == old(buffer)@ + varint_bytes(value as nat),
    decreases value,
{
    if value < 128 {
        buffer.push(value as u8);
        proof {
            assert(buffer@ =~= old(buffer)@ + varint_bytes(value as nat));
        }
    } else {
        buffer.push((value % 128 + 128) as u8);
        write_variable_length_integer(buffer, value / 128);
        proof {
            assert(buffer@ =~= old(buffer)@ + varint_bytes(value as nat));
        }
    }
}

/// How many bytes the variable-length encoding of `value` takes.
pub fn size_of_variable_length(value: u64) -> (r: usize)
    ensures
        r == varint_bytes(value as nat).len(),
{
    let mut tmp: Vec<u8> = Vec::new();
    write_variable_length_integer(&mut tmp, value);
    tmp.len()
}

/// Read a variable-length integer from `data` at `index`, advancing the
/// index past it.  Fails when the buffer ends inside the integer or the
/// value does not fit in 64 bits.
pub fn read_variable_length_integer(data: &Vec<u8>, index: &mut usize) -> (r: Option<u64>)
    requires
        *old(index) <= data@.len(),
    ensures
        match r {
            Some(v) => {
                &&& varint_decode(data@.subrange(*old(index) as int, data@.len() as int))
                    == Some((v as nat, *final(index) - *old(index)))
                &&& *old(index) <= *final(index) <= data@.len()
            },
            None => match varint_decode(data@.subrange(*old(index) as int, data@.len() as int)) {
                Some((v, _)) => v > u64::MAX,
                None => true,
            },
        },
    decreases data@.len() - *old(index),
{
    let ghost tail = data@.subrange(*index as int, data@.len() as int);
    if *index >= data.len() {
        return None;
    }
    let b = data[*index];
    *index += 1;
    proof {
        assert(tail[0] == b);
    }
    if b < 128 {
        Some(b as u64)
    } else {
        let ghost tail2 = data@.subrange(*index as int, data@.len() as int);
        proof {
            assert(tail2 =~= tail.subrange(1, tail.len() as int));
        }
        match read_variable_length_integer(data, index) {
            Some(v) => {
                if v == 0 {
                    // A continuation carrying nothing: a non-canonical
                    // form, rejected.
                    None
                } else if v <= 0x01FF_FFFF_FFFF_FFFF {
                    Some((b - 128) as u64 + 128 * v)
                } else {
                    None
                }
            },
            None => None,
        }
    }
}

} // verus!
