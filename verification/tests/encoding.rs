use bevy_solana::encode::{encode_arg, encode_instruction_data, ArgValue, BuildError};
use bevy_solana::pubkey::WrappedPubkey;
use bevy_solana::types::ArgSerializer;

fn encode_one(value: ArgValue) -> Vec<u8> {
    let mut data = Vec::new();
    encode_arg(&value, &mut data);
    data
}

#[test]
fn u64_is_little_endian() {
    assert_eq!(encode_one(ArgValue::U64(0x0102_0304_0506_0708)), vec![8, 7, 6, 5, 4, 3, 2, 1]);
    assert_eq!(encode_one(ArgValue::U64(0)), vec![0; 8]);
}

#[test]
fn i64_is_twos_complement_little_endian() {
    assert_eq!(encode_one(ArgValue::I64(-1)), vec![0xff; 8]);
    assert_eq!(encode_one(ArgValue::I64(-2)), vec![0xfe, 0xff, 0xff, 0xff, 0xff, 0xff, 0xff, 0xff]);
    assert_eq!(encode_one(ArgValue::I64(258)), vec![2, 1, 0, 0, 0, 0, 0, 0]);
}

#[test]
fn string_is_length_prefixed_utf8() {
    assert_eq!(encode_one(ArgValue::String("hi".to_string())), vec![2, 0, 0, 0, b'h', b'i']);
    assert_eq!(encode_one(ArgValue::String(String::new())), vec![0, 0, 0, 0]);
    // 'é' takes two UTF-8 bytes, so the prefix counts bytes, not characters.
    assert_eq!(encode_one(ArgValue::String("é".to_string())), vec![2, 0, 0, 0, 0xc3, 0xa9]);
}

#[test]
fn bool_is_one_byte() {
    assert_eq!(encode_one(ArgValue::Bool(true)), vec![1]);
    assert_eq!(encode_one(ArgValue::Bool(false)), vec![0]);
}

#[test]
fn pubkey_is_its_bytes() {
    let mut bytes = [0u8; 32];
    for (i, b) in bytes.iter_mut().enumerate() {
        *b = i as u8;
    }
    assert_eq!(encode_one(ArgValue::Pubkey(WrappedPubkey::from_bytes(bytes))), bytes.to_vec());
}

#[test]
fn encode_arg_appends() {
    let mut data = vec![9, 9];
    encode_arg(&ArgValue::Bool(true), &mut data);
    assert_eq!(data, vec![9, 9, 1]);
}

#[test]
fn instruction_data_is_discriminator_then_arguments() {
    let discriminator = [175u8, 175, 109, 31, 13, 152, 155, 237];
    let serializers = [ArgSerializer::U64Le, ArgSerializer::LengthPrefixedString, ArgSerializer::BoolByte];
    let args = [ArgValue::U64(5), ArgValue::String("ab".to_string()), ArgValue::Bool(false)];
    let data = encode_instruction_data(&discriminator, &serializers, &args).unwrap();
    let mut expected = discriminator.to_vec();
    expected.extend_from_slice(&[5, 0, 0, 0, 0, 0, 0, 0]);
    expected.extend_from_slice(&[2, 0, 0, 0, b'a', b'b']);
    expected.push(0);
    assert_eq!(data, expected);
    // The length is the discriminator's plus the sizes of the arguments.
    assert_eq!(data.len(), 8 + 8 + (4 + 2) + 1);
    assert_eq!(&data[..8], &discriminator);
}

#[test]
fn instruction_without_arguments_is_its_discriminator() {
    let discriminator = [175u8, 175, 109, 31, 13, 152, 155, 237];
    let data = encode_instruction_data(&discriminator, &[], &[]).unwrap();
    assert_eq!(data, discriminator.to_vec());
}

#[test]
fn argument_count_mismatch_is_refused() {
    let r = encode_instruction_data(&[1], &[ArgSerializer::U64Le], &[]);
    assert_eq!(r, Err(BuildError::ArgumentCount { expected: 1, given: 0 }));
    let r = encode_instruction_data(&[1], &[], &[ArgValue::Bool(true)]);
    assert_eq!(r, Err(BuildError::ArgumentCount { expected: 0, given: 1 }));
}

#[test]
fn first_refused_argument_is_reported() {
    let serializers = [ArgSerializer::BoolByte, ArgSerializer::U64Le, ArgSerializer::Unsupported];
    let args = [ArgValue::Bool(true), ArgValue::I64(3), ArgValue::U64(1)];
    let r = encode_instruction_data(&[], &serializers, &args);
    assert_eq!(r, Err(BuildError::ArgumentType { index: 1 }));
}

#[test]
fn unsupported_argument_is_reported() {
    let serializers = [ArgSerializer::BoolByte, ArgSerializer::Unsupported];
    let args = [ArgValue::Bool(true), ArgValue::U64(1)];
    let r = encode_instruction_data(&[], &serializers, &args);
    assert_eq!(r, Err(BuildError::UnsupportedArgument { index: 1 }));
}

#[test]
fn distinct_arguments_encode_differently() {
    let serializers = [ArgSerializer::LengthPrefixedString, ArgSerializer::LengthPrefixedString];
    let a = [ArgValue::String("ab".to_string()), ArgValue::String("c".to_string())];
    let b = [ArgValue::String("a".to_string()), ArgValue::String("bc".to_string())];
    let da = encode_instruction_data(&[], &serializers, &a).unwrap();
    let db = encode_instruction_data(&[], &serializers, &b).unwrap();
    assert_ne!(da, db);
}
