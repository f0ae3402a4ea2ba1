use vstd::prelude::*;
use vstd::string::StrSliceExecFns;

verus! {

/// A Rust type that generated code gives a field or an argument.
#[derive(Clone, Copy, Debug, PartialEq, Eq, Structural)]
pub enum GeneratedType {
    U64,
    I64,
    String,
    Bool,
    /// `bevy_solana_core::WrappedPubkey`, the key type of component fields.
    WrappedPubkey,
    /// `solana_sdk::pubkey::Pubkey`, the key type of builder arguments.
    SolanaPubkey,
}

/// How a generated builder appends one argument to the instruction data.
#[derive(Clone, Copy, Debug, PartialEq, Eq, Structural)]
pub enum ArgSerializer {
    /// The eight little-endian bytes of a `u64`.
    U64Le,
    /// The eight little-endian bytes of an `i64`.
    I64Le,
    /// The byte length as a little-endian `u32`, then the UTF-8 bytes.
    LengthPrefixedString,
    /// One byte: 1 for `true`, 0 for `false`.
    BoolByte,
    /// The 32 bytes of the key.
    PubkeyBytes,
    /// The IDL type has no serializer; the generated code does not compile.
    Unsupported,
}

/// Whether two strings hold the same characters.
pub(crate) fn str_equal(a: &str, b: &str) -> (equal: bool)
    ensures
        equal == (a@ == b@),
{
    let n = a.unicode_len();
    if n != b.unicode_len() {
        return false;
    }
    let mut i: usize = 0;
    while i < n
        invariant
            i <= n,
            n == a@.len(),
            n == b@.len(),
            forall|j: int| 0 <= j < i ==> a@[j] == b@[j],
        decreases n - i,
    {
        if a.get_char(i) != b.get_char(i) {
            return false;
        }
        i = i + 1;
    }
    assert(a@ =~= b@);
    true
}

/// The IDL type names that the generator knows.
pub open spec fn is_known_idl_type(ty: Seq<char>) -> bool {
    ty == "u64"@ || ty == "i64"@ || ty == "string"@ || ty == "bool"@ || ty == "publicKey"@
}

/// The type of a component or instruction-struct field of IDL type `ty`;
/// unknown types become `u64`.
pub open spec fn field_type(ty: Seq<char>) -> GeneratedType {
    if ty == "u64"@ {
        GeneratedType::U64
    } else if ty == "i64"@ {
        GeneratedType::I64
    } else if ty == "string"@ {
        GeneratedType::String
    } else if ty == "bool"@ {
        GeneratedType::Bool
    } else if ty == "publicKey"@ {
        GeneratedType::WrappedPubkey
    } else {
        GeneratedType::U64
    }
}

/// The type of a builder argument of IDL type `ty`; it is the field type but
/// for keys, which builders take as `solana_sdk::pubkey::Pubkey`.
pub open spec fn arg_type(ty: Seq<char>) -> GeneratedType {
    if ty == "publicKey"@ {
        GeneratedType::SolanaPubkey
    } else {
        field_type(ty)
    }
}

/// The serializer for an argument of IDL type `ty`.
pub open spec fn arg_serializer(ty: Seq<char>) -> ArgSerializer {
    if ty == "u64"@ {
        ArgSerializer::U64Le
    } else if ty == "i64"@ {
        ArgSerializer::I64Le
    } else if ty == "string"@ {
        ArgSerializer::LengthPrefixedString
    } else if ty == "bool"@ {
        ArgSerializer::BoolByte
    } else if ty == "publicKey"@ {
        ArgSerializer::PubkeyBytes
    } else {
        ArgSerializer::Unsupported
    }
}

/// The type that generated component and instruction structs give a field of
/// IDL type `ty`.
pub fn idl_field_type_tokens(ty: &str) -> (t: GeneratedType)
    ensures
        t == field_type(ty@),
{
    if str_equal(ty, "u64") {
        GeneratedType::U64
    } else if str_equal(ty, "i64") {
        GeneratedType::I64
    } else if str_equal(ty, "string") {
        GeneratedType::String
    } else if str_equal(ty, "bool") {
        GeneratedType::Bool
    } else if str_equal(ty, "publicKey") {
        GeneratedType::WrappedPubkey
    } else {
        GeneratedType::U64
    }
}

/// The type that a generated builder takes for an argument of IDL type `ty`.
pub fn idl_instruction_arg_type_tokens(ty: &str) -> (t: GeneratedType)
    ensures
        t == arg_type(ty@),
{
    if str_equal(ty, "publicKey") {
        GeneratedType::SolanaPubkey
    } else {
        idl_field_type_tokens(ty)
    }
}

/// How a generated builder serializes an argument of IDL type `ty`.
pub fn idl_arg_serializer_tokens(ty: &str) -> (s: ArgSerializer)
    ensures
        s == arg_serializer(ty@),
{
    if str_equal(ty, "u64") {
        ArgSerializer::U64Le
    } else if str_equal(ty, "i64") {
        ArgSerializer::I64Le
    } else if str_equal(ty, "string") {
        ArgSerializer::LengthPrefixedString
    } else if str_equal(ty, "bool") {
        ArgSerializer::BoolByte
    } else if str_equal(ty, "publicKey") {
        ArgSerializer::PubkeyBytes
    } else {
        ArgSerializer::Unsupported
    }
}

/// The three mappings agree: an argument is serializable exactly when its
/// type is known; builder and field types differ only for keys; and every
/// unknown type is typed as `u64` while having no serializer.
pub proof fn lemma_type_mappings_agree(ty: Seq<char>)
    ensures
        (arg_serializer(ty) != ArgSerializer::Unsupported) <==> is_known_idl_type(ty),
        arg_type(ty) != field_type(ty) <==> ty == "publicKey"@,
        !is_known_idl_type(ty) ==> field_type(ty) == GeneratedType::U64 && arg_type(ty)
            == GeneratedType::U64,
        field_type(ty) != GeneratedType::SolanaPubkey,
        arg_type(ty) != GeneratedType::WrappedPubkey,
{
}

/// The table of known IDL types: what each becomes as a component field, as
/// a builder argument, and how a builder serializes it.
pub proof fn lemma_type_table(ty: Seq<char>)
    ensures
        ty == "u64"@ ==> field_type(ty) == GeneratedType::U64 && arg_type(ty) == GeneratedType::U64
            && arg_serializer(ty) == ArgSerializer::U64Le,
        ty == "i64"@ ==> field_type(ty) == GeneratedType::I64 && arg_type(ty) == GeneratedType::I64
            && arg_serializer(ty) == ArgSerializer::I64Le,
        ty == "string"@ ==> field_type(ty) == GeneratedType::String && arg_type(ty) == GeneratedType::String
            && arg_serializer(ty) == ArgSerializer::LengthPrefixedString,
        ty == "bool"@ ==> field_type(ty) == GeneratedType::Bool && arg_type(ty) == GeneratedType::Bool
            && arg_serializer(ty) == ArgSerializer::BoolByte,
        ty == "publicKey"@ ==> field_type(ty) == GeneratedType::WrappedPubkey && arg_type(ty)
            == GeneratedType::SolanaPubkey && arg_serializer(ty) == ArgSerializer::PubkeyBytes,
{
    reveal_strlit("u64");
    reveal_strlit("i64");
    reveal_strlit("string");
    reveal_strlit("bool");
    reveal_strlit("publicKey");
    assert("i64"@ != "u64"@) by {
        assert("i64"@[0] != "u64"@[0]);
    }
    assert("string"@ != "u64"@ && "string"@ != "i64"@) by {
        assert("string"@.len() != "u64"@.len());
    }
    assert("bool"@ != "u64"@ && "bool"@ != "i64"@ && "bool"@ != "string"@) by {
        assert("bool"@.len() != "u64"@.len());
        assert("bool"@.len() != "string"@.len());
    }
    assert("publicKey"@ != "u64"@ && "publicKey"@ != "i64"@ && "publicKey"@ != "string"@
        && "publicKey"@ != "bool"@) by {
        assert("publicKey"@.len() != "u64"@.len());
        assert("publicKey"@.len() != "string"@.len());
        assert("publicKey"@.len() != "bool"@.len());
    }
}

} // verus!
