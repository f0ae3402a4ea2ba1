use bevy_solana::ident::is_valid_ident;
use bevy_solana::naming::{accounts_struct_ident, checked_pascal_case_ident, pascal_case_ident};
use bevy_solana::types::{
    idl_arg_serializer_tokens, idl_field_type_tokens, idl_instruction_arg_type_tokens, ArgSerializer,
    GeneratedType,
};

#[test]
fn pascal_case_capitalizes_first_ascii_letter() {
    assert_eq!(pascal_case_ident("initialize"), "Initialize");
    assert_eq!(pascal_case_ident("updateScore"), "UpdateScore");
    assert_eq!(pascal_case_ident("x"), "X");
}

#[test]
fn pascal_case_keeps_capitals_and_underscores() {
    assert_eq!(pascal_case_ident("Already"), "Already");
    assert_eq!(pascal_case_ident("_private"), "_private");
}

#[test]
fn names_that_are_no_identifiers_are_refused() {
    assert_eq!(checked_pascal_case_ident(""), None);
    assert_eq!(checked_pascal_case_ident("1st_move"), None);
    assert_eq!(checked_pascal_case_ident("a-b"), None);
    assert_eq!(checked_pascal_case_ident("x y"), None);
    assert_eq!(checked_pascal_case_ident("init"), Some("Init".to_string()));
    assert_eq!(checked_pascal_case_ident("_x"), Some("_x".to_string()));
}

#[test]
fn identifier_check_follows_xid() {
    assert!(is_valid_ident("abc"));
    assert!(is_valid_ident("_"));
    assert!(is_valid_ident("a1_b"));
    assert!(is_valid_ident("élan"));
    assert!(!is_valid_ident(""));
    assert!(!is_valid_ident("123"));
    assert!(!is_valid_ident("9a"));
    assert!(!is_valid_ident("a-b"));
    assert!(!is_valid_ident("a b"));
}

#[test]
fn pascal_case_uses_unicode_uppercase() {
    assert_eq!(pascal_case_ident("élan"), "Élan");
    // 'ß' has a two-character uppercase mapping.
    assert_eq!(pascal_case_ident("ßx"), "SSx");
}

#[test]
fn accounts_struct_name_appends_accounts() {
    assert_eq!(accounts_struct_ident("initialize"), "InitializeAccounts");
}

#[test]
fn field_types_follow_the_idl_names() {
    assert_eq!(idl_field_type_tokens("u64"), GeneratedType::U64);
    assert_eq!(idl_field_type_tokens("i64"), GeneratedType::I64);
    assert_eq!(idl_field_type_tokens("string"), GeneratedType::String);
    assert_eq!(idl_field_type_tokens("bool"), GeneratedType::Bool);
    assert_eq!(idl_field_type_tokens("publicKey"), GeneratedType::WrappedPubkey);
}

#[test]
fn unknown_field_types_become_u64() {
    assert_eq!(idl_field_type_tokens("u8"), GeneratedType::U64);
    assert_eq!(idl_field_type_tokens("pubkey"), GeneratedType::U64);
    assert_eq!(idl_field_type_tokens(""), GeneratedType::U64);
    assert_eq!(idl_instruction_arg_type_tokens("f32"), GeneratedType::U64);
}

#[test]
fn builder_argument_types_differ_only_for_keys() {
    assert_eq!(idl_instruction_arg_type_tokens("publicKey"), GeneratedType::SolanaPubkey);
    for ty in ["u64", "i64", "string", "bool", "u128", "Vec<u8>"] {
        assert_eq!(idl_instruction_arg_type_tokens(ty), idl_field_type_tokens(ty));
    }
}

#[test]
fn serializers_follow_the_idl_names() {
    assert_eq!(idl_arg_serializer_tokens("u64"), ArgSerializer::U64Le);
    assert_eq!(idl_arg_serializer_tokens("i64"), ArgSerializer::I64Le);
    assert_eq!(idl_arg_serializer_tokens("string"), ArgSerializer::LengthPrefixedString);
    assert_eq!(idl_arg_serializer_tokens("bool"), ArgSerializer::BoolByte);
    assert_eq!(idl_arg_serializer_tokens("publicKey"), ArgSerializer::PubkeyBytes);
}

#[test]
fn unknown_types_have_no_serializer() {
    assert_eq!(idl_arg_serializer_tokens("u8"), ArgSerializer::Unsupported);
    assert_eq!(idl_arg_serializer_tokens("U64"), ArgSerializer::Unsupported);
    assert_eq!(idl_arg_serializer_tokens(""), ArgSerializer::Unsupported);
}

#[test]
fn pascal_case_is_idempotent_on_ascii_names() {
    for name in ["initialize", "Initialize", "setName", "_x", "a"] {
        let once = pascal_case_ident(name);
        assert_eq!(pascal_case_ident(&once), once);
    }
}
