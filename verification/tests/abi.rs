use alloy::dyn_abi::DynSolValue;
use precompile_core::abi::{decode, decode_word, encode, have_types, word_of, AbiType, AbiValue};
use precompile_core::primitives::{Address, U256};

fn sample() -> Vec<AbiValue> {
    vec![
        AbiValue::Address(Address::new([0x11; 20])),
        AbiValue::Bool(true),
        AbiValue::Uint8(200),
        AbiValue::Uint64(0x0102030405060708),
        AbiValue::Uint256(U256::from_be_bytes([0xCD; 32])),
        AbiValue::Bytes32(U256::from_be_bytes([0xEF; 32])),
    ]
}

fn sample_types() -> Vec<AbiType> {
    vec![
        AbiType::Address,
        AbiType::Bool,
        AbiType::Uint8,
        AbiType::Uint64,
        AbiType::Uint256,
        AbiType::Bytes32,
    ]
}

#[test]
fn words_are_encoded_as_the_standard_does() {
    let ours = encode(&sample());
    let theirs = DynSolValue::Tuple(vec![
        DynSolValue::Address(alloy::primitives::Address::new([0x11; 20])),
        DynSolValue::Bool(true),
        DynSolValue::Uint(alloy::primitives::U256::from(200u8), 8),
        DynSolValue::Uint(alloy::primitives::U256::from(0x0102030405060708u64), 64),
        DynSolValue::Uint(alloy::primitives::U256::from_be_bytes([0xCD; 32]), 256),
        DynSolValue::FixedBytes(alloy::primitives::B256::new([0xEF; 32]), 32),
    ])
    .abi_encode_params();
    assert_eq!(ours, theirs);
    assert_eq!(ours.len(), 6 * 32);
}

#[test]
fn strings_are_encoded_behind_the_words() {
    let values = vec![
        AbiValue::String(b"Tempo".to_vec()),
        AbiValue::Uint8(6),
        AbiValue::String(Vec::new()),
        AbiValue::String(vec![b'x'; 32]),
        AbiValue::String(vec![b'y'; 33]),
    ];
    let ours = encode(&values);
    let theirs = DynSolValue::Tuple(vec![
        DynSolValue::String("Tempo".to_string()),
        DynSolValue::Uint(alloy::primitives::U256::from(6u8), 8),
        DynSolValue::String(String::new()),
        DynSolValue::String("x".repeat(32)),
        DynSolValue::String("y".repeat(33)),
    ])
    .abi_encode_params();
    assert_eq!(ours, theirs);
    assert_eq!(decode(&types_of(&values), &ours), Some(values));
}

fn types_of(values: &[AbiValue]) -> Vec<AbiType> {
    values.iter().map(|v| v.ty()).collect()
}

#[test]
fn one_string_is_offset_length_and_padded_bytes() {
    let ours = encode(&vec![AbiValue::String(b"mint".to_vec())]);
    let mut expected = vec![0u8; 96];
    expected[31] = 0x20;
    expected[63] = 4;
    expected[64..68].copy_from_slice(b"mint");
    assert_eq!(ours, expected);
    assert_eq!(encode(&Vec::new()), Vec::<u8>::new());
}

#[test]
fn encoding_decodes_to_the_values() {
    let values = sample();
    let data = encode(&values);
    assert!(have_types(&values, &sample_types()));
    assert_eq!(decode(&sample_types(), &data), Some(values.clone()));
    // Bytes behind the words are not looked at.
    let mut longer = data.clone();
    longer.extend_from_slice(&[0xAA; 7]);
    assert_eq!(decode(&sample_types(), &longer), Some(values));
    assert_eq!(decode(&Vec::new(), &[]), Some(Vec::new()));
    assert_eq!(decode(&Vec::new(), &[1, 2, 3]), Some(Vec::new()));
}

#[test]
fn short_or_malformed_data_does_not_decode() {
    let data = encode(&sample());
    assert_eq!(decode(&sample_types(), &data[..data.len() - 1]), None);
    assert_eq!(decode(&vec![AbiType::Uint8], &[]), None);

    let word = |last: u8, first: u8| {
        let mut w = [0u8; 32];
        w[31] = last;
        w[0] = first;
        U256::from_be_bytes(w)
    };
    assert_eq!(decode_word(AbiType::Bool, &word(0, 0)), Some(AbiValue::Bool(false)));
    assert_eq!(decode_word(AbiType::Bool, &word(1, 0)), Some(AbiValue::Bool(true)));
    assert_eq!(decode_word(AbiType::Bool, &word(2, 0)), None);
    assert_eq!(decode_word(AbiType::Bool, &word(1, 1)), None);
    assert_eq!(decode_word(AbiType::Uint8, &word(255, 0)), Some(AbiValue::Uint8(255)));
    assert_eq!(decode_word(AbiType::Uint8, &U256::from_u64(256)), None);
    assert_eq!(
        decode_word(AbiType::Uint64, &U256::from_u64(u64::MAX)),
        Some(AbiValue::Uint64(u64::MAX))
    );
    assert_eq!(decode_word(AbiType::Uint64, &U256::from_uint(1 << 64)), None);
    assert_eq!(decode_word(AbiType::Address, &word(5, 1)), None);
    let mut a = [0u8; 32];
    a[11] = 1;
    assert_eq!(decode_word(AbiType::Address, &U256::from_be_bytes(a)), None);
    a[11] = 0;
    a[12] = 1;
    let mut expected = [0u8; 20];
    expected[0] = 1;
    assert_eq!(
        decode_word(AbiType::Address, &U256::from_be_bytes(a)),
        Some(AbiValue::Address(Address::new(expected)))
    );
    assert_eq!(decode_word(AbiType::String, &U256::zero()), None);
}

#[test]
fn string_must_lie_inside_the_data() {
    let good = encode(&vec![AbiValue::String(b"abc".to_vec())]);
    assert_eq!(
        decode(&vec![AbiType::String], &good),
        Some(vec![AbiValue::String(b"abc".to_vec())])
    );
    // The length word is cut off.
    assert_eq!(decode(&vec![AbiType::String], &good[..63]), None);
    // The bytes are cut off.
    assert_eq!(decode(&vec![AbiType::String], &good[..66]), None);
    assert_eq!(
        decode(&vec![AbiType::String], &good[..67]),
        Some(vec![AbiValue::String(b"abc".to_vec())])
    );
    // The offset points behind the data.
    let mut bad = good.clone();
    bad[31] = 0x60;
    assert_eq!(decode(&vec![AbiType::String], &bad), None);
    // The offset is beyond what a length can be.
    let mut bad = good.clone();
    bad[0] = 1;
    assert_eq!(decode(&vec![AbiType::String], &bad), None);
    // The length is.
    let mut bad = good;
    bad[32] = 1;
    assert_eq!(decode(&vec![AbiType::String], &bad), None);
}

#[test]
fn values_are_held_to_their_types() {
    assert!(!have_types(&sample(), &sample_types()[..5].to_vec()));
    let mut types = sample_types();
    types[2] = AbiType::Uint64;
    assert!(!have_types(&sample(), &types));
    assert!(have_types(&Vec::new(), &Vec::new()));
    assert_eq!(AbiType::Bytes32.name(), "bytes32");
    assert_eq!(AbiType::Uint8.name(), "uint8");
    assert_eq!(word_of(&AbiValue::Bool(true)), U256::one());
    assert_eq!(word_of(&AbiValue::String(vec![1, 2])), U256::zero());
    assert_eq!(
        AbiValue::String(vec![1, 2, 3]).duplicate(),
        AbiValue::String(vec![1, 2, 3])
    );
}
