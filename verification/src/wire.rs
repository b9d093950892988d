use vstd::prelude::*;

verus! {

/// Byte `i` of the little-endian encoding of `id`.
pub open spec fn le_byte(id: u64, i: int) -> u8 {
    (id >> ((8 * i) as u64)) as u8
}

/// The wire payload of an identifier: exactly eight bytes, little endian,
/// and nothing else.
pub open spec fn spec_encode(id: u64) -> Seq<u8> {
    seq![
        le_byte(id, 0),
        le_byte(id, 1),
        le_byte(id, 2),
        le_byte(id, 3),
        le_byte(id, 4),
        le_byte(id, 5),
        le_byte(id, 6),
        le_byte(id, 7),
    ]
}

/// The identifier an eight-byte little-endian payload denotes.
pub open spec fn spec_decode(b: Seq<u8>) -> u64 {
    ((b[0] as u64) | ((b[1] as u64) << 8u64) | ((b[2] as u64) << 16u64)
        | ((b[3] as u64) << 24u64) | ((b[4] as u64) << 32u64) | ((b[5] as u64) << 40u64)
        | ((b[6] as u64) << 48u64) | ((b[7] as u64) << 56u64)) as u64
}

/// The payload published for an identifier.
pub fn encode_id(id: u64) -> (r: Vec<u8>)
    ensures
        r@ == spec_encode(id),
{
    let mut r: Vec<u8> = Vec::new();
    r.push(id as u8);
    r.push((id >> 8u64) as u8);
    r.push((id >> 16u64) as u8);
    r.push((id >> 24u64) as u8);
    r.push((id >> 32u64) as u8);
    r.push((id >> 40u64) as u8);
    r.push((id >> 48u64) as u8);
    r.push((id >> 56u64) as u8);
    proof {
        assert((id >> 0u64) as u8 == id as u8) by (bit_vector);
        assert(r@ =~= spec_encode(id));
    }
    r
}

/// The identifier a received payload denotes, or nothing when the payload is
/// not exactly eight bytes long.
pub fn decode_id(b: &Vec<u8>) -> (r: Option<u64>)
    ensures
        b@.len() == 8 ==> r == Some(spec_decode(b@)),
        b@.len() != 8 ==> r is None,
{
    if b.len() != 8 {
        return None;
    }
    let r = (b[0] as u64) | ((b[1] as u64) << 8u64) | ((b[2] as u64) << 16u64)
        | ((b[3] as u64) << 24u64) | ((b[4] as u64) << 32u64) | ((b[5] as u64) << 40u64)
        | ((b[6] as u64) << 48u64) | ((b[7] as u64) << 56u64);
    Some(r)
}

/// The wire format loses nothing: decoding the encoding of an identifier
/// yields the identifier back.
pub proof fn lemma_wire_round_trip(id: u64)
    ensures
        spec_decode(spec_encode(id)) == id,
{
    assert((((id >> 0u64) as u8 as u64) | (((id >> 8u64) as u8 as u64) << 8u64)
        | (((id >> 16u64) as u8 as u64) << 16u64) | (((id >> 24u64) as u8 as u64) << 24u64)
        | (((id >> 32u64) as u8 as u64) << 32u64) | (((id >> 40u64) as u8 as u64) << 40u64)
        | (((id >> 48u64) as u8 as u64) << 48u64) | (((id >> 56u64) as u8 as u64) << 56u64))
        == id) by (bit_vector);
}

} // verus!
