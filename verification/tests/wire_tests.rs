use exerciser::wire::{decode_id, encode_id};

#[test]
fn encoding_is_little_endian_and_eight_bytes() {
    let bytes = encode_id(0x0807060504030201);
    assert_eq!(bytes, vec![1, 2, 3, 4, 5, 6, 7, 8]);
}

#[test]
fn encoding_zero_gives_eight_zero_bytes() {
    assert_eq!(encode_id(0), vec![0; 8]);
}

#[test]
fn decoding_reads_little_endian() {
    let bytes: Vec<u8> = vec![1, 2, 3, 4, 5, 6, 7, 8];
    assert_eq!(decode_id(&bytes), Some(0x0807060504030201));
}

#[test]
fn a_payload_of_the_wrong_length_is_rejected() {
    let short: Vec<u8> = vec![1, 2, 3];
    let long: Vec<u8> = vec![0; 9];
    assert_eq!(decode_id(&short), None);
    assert_eq!(decode_id(&long), None);
}

#[test]
fn the_wire_format_round_trips() {
    for id in [0u64, 1, 255, 256, 123456789, u64::MAX] {
        assert_eq!(decode_id(&encode_id(id)), Some(id));
    }
}
