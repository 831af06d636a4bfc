use term_bm25::fieldnorm::{fieldnorm_to_id, id_to_fieldnorm, FieldNormReader};

#[test]
fn test_small_lengths_are_exact() {
    for n in 0u32..16 {
        let id = fieldnorm_to_id(n);
        assert_eq!(id as u32, n);
        assert_eq!(id_to_fieldnorm(id), n);
    }
}

#[test]
fn test_quantization_rounds_down() {
    assert_eq!(id_to_fieldnorm(fieldnorm_to_id(10)), 10);
    assert_eq!(id_to_fieldnorm(fieldnorm_to_id(12)), 12);
    assert_eq!(id_to_fieldnorm(fieldnorm_to_id(100)), 96);
    assert_eq!(id_to_fieldnorm(fieldnorm_to_id(16)), 16);
    assert_eq!(id_to_fieldnorm(fieldnorm_to_id(31)), 30);
    for n in [0u32, 1, 15, 16, 17, 100, 1000, 65536, 1_000_000, u32::MAX] {
        assert!(id_to_fieldnorm(fieldnorm_to_id(n)) <= n);
    }
}

#[test]
fn test_encoding_monotonic() {
    let mut previous: u8 = 0;
    for n in 0u32..5000 {
        let id = fieldnorm_to_id(n);
        assert!(id >= previous);
        previous = id;
    }
}

#[test]
fn test_decoding_monotonic() {
    let mut previous: u32 = 0;
    for id in 0u16..256 {
        let decoded = id_to_fieldnorm(id as u8);
        assert!(decoded >= previous);
        previous = decoded;
    }
}

#[test]
fn test_roundtrip_on_code_points() {
    for id in 0u16..240 {
        let decoded = id_to_fieldnorm(id as u8);
        assert_eq!(fieldnorm_to_id(decoded), id as u8);
    }
}

#[test]
fn test_reader_lookup() {
    let lengths = vec![0u32, 3, 10, 100, 40];
    let reader = FieldNormReader::from_lengths(&lengths);
    assert_eq!(reader.num_docs(), 5);
    assert_eq!(reader.fieldnorm_id(0), 0);
    assert_eq!(reader.fieldnorm_id(2), 10);
    assert_eq!(reader.fieldnorm(3), 96);
    assert_eq!(reader.fieldnorm(4), 40);
}
