use bevy_solana::account::decode_account;
use bevy_solana::encode::{encode_arg, ArgValue};
use bevy_solana::plan::{ComponentPlan, FieldPlan};
use bevy_solana::pubkey::WrappedPubkey;
use bevy_solana::types::GeneratedType;

fn component(types: &[GeneratedType]) -> ComponentPlan {
    ComponentPlan {
        name: "Player".to_string(),
        fields: types
            .iter()
            .enumerate()
            .map(|(i, t)| FieldPlan { name: format!("f{}", i), ty: *t })
            .collect(),
    }
}

fn data_of(values: &[ArgValue]) -> Vec<u8> {
    let mut data = vec![0xaa; 8];
    for v in values {
        encode_arg(v, &mut data);
    }
    data
}

fn describe(values: &[ArgValue]) -> Vec<String> {
    values.iter().map(|v| format!("{:?}", v)).collect()
}

#[test]
fn account_fields_read_back() {
    let c = component(&[
        GeneratedType::U64,
        GeneratedType::String,
        GeneratedType::WrappedPubkey,
        GeneratedType::Bool,
        GeneratedType::I64,
    ]);
    let values = vec![
        ArgValue::U64(42),
        ArgValue::String("héllo".to_string()),
        ArgValue::Pubkey(WrappedPubkey::from_bytes([3; 32])),
        ArgValue::Bool(true),
        ArgValue::I64(-7),
    ];
    let decoded = decode_account(&c, &data_of(&values)).unwrap();
    assert_eq!(describe(&decoded), describe(&values));
}

#[test]
fn trailing_bytes_are_ignored() {
    let c = component(&[GeneratedType::U64]);
    let mut data = data_of(&[ArgValue::U64(9)]);
    data.extend_from_slice(&[1, 2, 3]);
    let decoded = decode_account(&c, &data).unwrap();
    assert_eq!(describe(&decoded), describe(&[ArgValue::U64(9)]));
}

#[test]
fn account_without_fields_needs_only_the_discriminator() {
    let c = component(&[]);
    assert_eq!(decode_account(&c, &[0; 8]).unwrap().len(), 0);
    assert!(decode_account(&c, &[0; 7]).is_none());
}

#[test]
fn short_data_is_refused() {
    let c = component(&[GeneratedType::U64, GeneratedType::U64]);
    let data = data_of(&[ArgValue::U64(1)]);
    assert!(decode_account(&c, &data).is_none());
    let c = component(&[GeneratedType::String]);
    // The length prefix says 5 bytes, but only 2 follow.
    let mut data = vec![0; 8];
    data.extend_from_slice(&[5, 0, 0, 0, b'a', b'b']);
    assert!(decode_account(&c, &data).is_none());
}

#[test]
fn invalid_utf8_is_refused() {
    let c = component(&[GeneratedType::String]);
    let mut data = vec![0; 8];
    data.extend_from_slice(&[2, 0, 0, 0, 0xff, 0xfe]);
    assert!(decode_account(&c, &data).is_none());
}

#[test]
fn bool_byte_other_than_zero_or_one_is_refused() {
    let c = component(&[GeneratedType::Bool]);
    let mut data = vec![0; 8];
    data.push(2);
    assert!(decode_account(&c, &data).is_none());
    data[8] = 0;
    assert_eq!(describe(&decode_account(&c, &data).unwrap()), describe(&[ArgValue::Bool(false)]));
}

#[test]
fn i64_reads_twos_complement() {
    let c = component(&[GeneratedType::I64]);
    let mut data = vec![0; 8];
    data.extend_from_slice(&[0xfe, 0xff, 0xff, 0xff, 0xff, 0xff, 0xff, 0xff]);
    assert_eq!(describe(&decode_account(&c, &data).unwrap()), describe(&[ArgValue::I64(-2)]));
}
