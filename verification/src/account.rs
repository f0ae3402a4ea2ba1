use vstd::prelude::*;
use vstd::bytes::{spec_u32_from_le_bytes, spec_u64_from_le_bytes, u32_from_le_bytes, u64_from_le_bytes};
use vstd::slice::slice_subrange;
use vstd::utf8::{decode_utf8, valid_utf8};

use crate::encode::{
    arg_fits, arg_size, arg_view, decode_arg, encoded_arg, encoded_args, lemma_decode_encoded_arg,
    lemma_encoded_arg_len, serializer_accepts, ArgValue, DecodedArg,
};
use crate::plan::{ComponentPlan, FieldPlan};
use crate::pubkey::WrappedPubkey;
use crate::types::{ArgSerializer, GeneratedType};

verus! {

/// The number of bytes in front of an account's fields: Anchor's account
/// discriminator.
pub const ACCOUNT_DISCRIMINATOR_LEN: usize = 8;

/// How a field of type `ty` is laid out in account data (Borsh).
pub open spec fn field_serializer(ty: GeneratedType) -> ArgSerializer {
    match ty {
        GeneratedType::U64 => ArgSerializer::U64Le,
        GeneratedType::I64 => ArgSerializer::I64Le,
        GeneratedType::String => ArgSerializer::LengthPrefixedString,
        GeneratedType::Bool => ArgSerializer::BoolByte,
        GeneratedType::WrappedPubkey => ArgSerializer::PubkeyBytes,
        GeneratedType::SolanaPubkey => ArgSerializer::PubkeyBytes,
    }
}

/// Reads fields of types `types`, in order, from the front of `bytes`; bytes
/// after the last field are left alone.
pub open spec fn decode_fields(types: Seq<GeneratedType>, bytes: Seq<u8>) -> Option<Seq<DecodedArg>>
    decreases types.len(),
{
    if types.len() == 0 {
        Some(Seq::empty())
    } else {
        match decode_arg(field_serializer(types[0]), bytes) {
            Some((value, n)) => match decode_fields(types.drop_first(), bytes.skip(n as int)) {
                Some(rest) => Some(seq![value] + rest),
                None => None,
            },
            None => None,
        }
    }
}

/// The field values that account data `data` holds for fields of types
/// `types`: the data starts with the 8-byte discriminator, then each field.
pub open spec fn account_fields(types: Seq<GeneratedType>, data: Seq<u8>) -> Option<Seq<DecodedArg>> {
    if data.len() < ACCOUNT_DISCRIMINATOR_LEN {
        None
    } else {
        decode_fields(types, data.skip(ACCOUNT_DISCRIMINATOR_LEN as int))
    }
}

/// The types of a component's fields.
pub open spec fn component_field_types(component: ComponentPlan) -> Seq<GeneratedType> {
    component.fields@.map_values(|f: FieldPlan| f.ty)
}

/// The string that `bytes` hold, by `String::from_utf8`.
///
/// Claimed of the std function: it succeeds exactly on valid UTF-8, and the
/// string then holds the characters that the bytes encode.
#[verifier::external_body]
fn string_from_utf8(bytes: &[u8]) -> (s: Option<String>)
    ensures
        s is Some <==> valid_utf8(bytes@),
        s matches Some(t) ==> t@ == decode_utf8(bytes@),
{
    String::from_utf8(bytes.to_vec()).ok()
}

/// Reads one field of type `ty` at `pos` of `data`: the value and the
/// position after it.
fn decode_field(ty: GeneratedType, data: &[u8], pos: usize) -> (r: Option<(ArgValue, usize)>)
    requires
        pos <= data@.len(),
    ensures
        match decode_arg(field_serializer(ty), data@.skip(pos as int)) {
            Some((d, n)) => r matches Some((v, end)) && arg_view(v) == d && end == pos + n,
            None => r is None,
        },
{
    let ghost bytes = data@.skip(pos as int);
    let avail = data.len() - pos;
    match ty {
        GeneratedType::U64 => {
            if avail < 8 {
                return None;
            }
            let chunk = slice_subrange(data, pos, pos + 8);
            assert(chunk@ =~= bytes.take(8));
            Some((ArgValue::U64(u64_from_le_bytes(chunk)), pos + 8))
        },
        GeneratedType::I64 => {
            if avail < 8 {
                return None;
            }
            let chunk = slice_subrange(data, pos, pos + 8);
            assert(chunk@ =~= bytes.take(8));
            let x = u64_from_le_bytes(chunk);
            let v: i64 = #[verifier::truncate] (x as i64);
            Some((ArgValue::I64(v), pos + 8))
        },
        GeneratedType::String => {
            if avail < 4 {
                return None;
            }
            let prefix = slice_subrange(data, pos, pos + 4);
            assert(prefix@ =~= bytes.take(4));
            let n = u32_from_le_bytes(prefix) as usize;
            if avail - 4 < n {
                return None;
            }
            let text = slice_subrange(data, pos + 4, pos + 4 + n);
            assert(text@ =~= bytes.subrange(4, 4 + n as int));
            match string_from_utf8(text) {
                Some(s) => Some((ArgValue::String(s), pos + 4 + n)),
                None => None,
            }
        },
        GeneratedType::Bool => {
            if avail < 1 {
                return None;
            }
            let b = data[pos];
            assert(b == bytes[0]);
            if b == 1 {
                Some((ArgValue::Bool(true), pos + 1))
            } else if b == 0 {
                Some((ArgValue::Bool(false), pos + 1))
            } else {
                None
            }
        },
        GeneratedType::WrappedPubkey | GeneratedType::SolanaPubkey => {
            if avail < 32 {
                return None;
            }
            let mut key = [0u8; 32];
            let mut i: usize = 0;
            while i < 32
                invariant
                    i <= 32,
                    pos + 32 <= data.len(),
                    bytes == data@.skip(pos as int),
                    forall|j: int| 0 <= j < i ==> key@[j] == bytes[j],
                decreases 32 - i,
            {
                key[i] = data[pos + i];
                i = i + 1;
            }
            assert(key@ =~= bytes.take(32));
            Some((ArgValue::Pubkey(WrappedPubkey::from_bytes(key)), pos + 32))
        },
    }
}

/// Reads a component's field values from on-chain account data, as the
/// account deserializer that the generator provides for it does: the 8-byte
/// account discriminator, then each field in order (Borsh); bytes after the
/// last field are ignored. `None` where the data is too short, a string is
/// not UTF-8 or a bool byte is neither 0 nor 1.
pub fn decode_account(component: &ComponentPlan, data: &[u8]) -> (r: Option<Vec<ArgValue>>)
    ensures
        match account_fields(component_field_types(*component), data@) {
            Some(values) => r matches Some(v) && v@.map_values(|a: ArgValue| arg_view(a)) == values,
            None => r is None,
        },
{
    let ghost types = component_field_types(*component);
    if data.len() < ACCOUNT_DISCRIMINATOR_LEN {
        return None;
    }
    let ghost base = data@.skip(ACCOUNT_DISCRIMINATOR_LEN as int);
    let mut values: Vec<ArgValue> = Vec::new();
    let mut pos: usize = ACCOUNT_DISCRIMINATOR_LEN;
    let mut i: usize = 0;
    assert(types.skip(0) =~= types);
    assert(data@.skip(pos as int) =~= base);
    assert(values@.map_values(|a: ArgValue| arg_view(a)) =~= Seq::<DecodedArg>::empty());
    while i < component.fields.len()
        invariant
            types == component_field_types(*component),
            types.len() == component.fields@.len(),
            base == data@.skip(ACCOUNT_DISCRIMINATOR_LEN as int),
            i <= component.fields.len(),
            pos <= data@.len(),
            decode_fields(types, base) == match decode_fields(types.skip(i as int), data@.skip(pos as int)) {
                Some(rest) => Some(values@.map_values(|a: ArgValue| arg_view(a)) + rest),
                None => None::<Seq<DecodedArg>>,
            },
        decreases component.fields.len() - i,
    {
        let ty = component.fields[i].ty;
        assert(types[i as int] == ty);
        let ghost rest_types = types.skip(i as int);
        assert(rest_types[0] == ty);
        assert(rest_types.drop_first() =~= types.skip(i + 1));
        match decode_field(ty, data, pos) {
            Some((v, end)) => {
                let ghost n = (end - pos) as nat;
                assert(data@.skip(pos as int).skip(n as int) =~= data@.skip(end as int));
                let ghost before = values@.map_values(|a: ArgValue| arg_view(a));
                values.push(v);
                assert(values@.map_values(|a: ArgValue| arg_view(a)) =~= before.push(arg_view(v)));
                proof {
                    match decode_fields(types.skip(i + 1), data@.skip(end as int)) {
                        Some(rest) => {
                            assert(before + (seq![arg_view(v)] + rest) =~= before.push(arg_view(v)) + rest);
                        },
                        None => {},
                    }
                }
                pos = end;
            },
            None => {
                return None;
            },
        }
        i = i + 1;
    }
    assert(types.skip(i as int) =~= Seq::<GeneratedType>::empty());
    assert(values@.map_values(|a: ArgValue| arg_view(a)) + Seq::<DecodedArg>::empty() =~= values@.map_values(
        |a: ArgValue| arg_view(a),
    ));
    Some(values)
}

/// Reading fields back from their encoding, followed by anything, gives the
/// values that were encoded.
pub proof fn lemma_decode_fields_encoded(types: Seq<GeneratedType>, values: Seq<ArgValue>, extra: Seq<u8>)
    requires
        types.len() == values.len(),
        forall|i: int| 0 <= i < values.len() ==> serializer_accepts(field_serializer(#[trigger] types[i]), values[i]),
        forall|i: int| 0 <= i < values.len() ==> #[trigger] arg_fits(values[i]),
    ensures
        decode_fields(types, encoded_args(values) + extra) == Some(values.map_values(|v: ArgValue| arg_view(v))),
    decreases values.len(),
{
    if values.len() == 0 {
        assert(values.map_values(|v: ArgValue| arg_view(v)) =~= Seq::<DecodedArg>::empty());
    } else {
        let rest_values = values.drop_first();
        let rest_types = types.drop_first();
        let first = seq![values[0]];
        assert(first + rest_values =~= values);
        crate::encode::lemma_encoded_args_append(first, rest_values);
        assert(first.drop_last() =~= Seq::<ArgValue>::empty());
        assert(first.last() == values[0]);
        assert(encoded_args(first.drop_last()) == Seq::<u8>::empty());
        assert(encoded_args(first) == encoded_args(first.drop_last()) + encoded_arg(first.last()));
        assert(encoded_args(first) =~= encoded_arg(values[0]));
        let tail = encoded_args(rest_values) + extra;
        assert(encoded_args(values) + extra =~= encoded_arg(values[0]) + tail);
        assert(serializer_accepts(field_serializer(types[0]), values[0]));
        assert(arg_fits(values[0]));
        lemma_decode_encoded_arg(field_serializer(types[0]), values[0], tail);
        lemma_encoded_arg_len(values[0]);
        assert((encoded_arg(values[0]) + tail).skip(arg_size(values[0]) as int) =~= tail);
        assert forall|i: int| 0 <= i < rest_values.len() implies serializer_accepts(
            field_serializer(#[trigger] rest_types[i]),
            rest_values[i],
        ) by {
            assert(serializer_accepts(field_serializer(types[i + 1]), values[i + 1]));
        }
        assert forall|i: int| 0 <= i < rest_values.len() implies #[trigger] arg_fits(rest_values[i]) by {
            assert(arg_fits(values[i + 1]));
        }
        lemma_decode_fields_encoded(rest_types, rest_values, extra);
        assert(values.map_values(|v: ArgValue| arg_view(v)) =~= seq![arg_view(values[0])]
            + rest_values.map_values(|v: ArgValue| arg_view(v)));
    }
}

/// The account deserializer inverts the account layout: data made of any
/// 8-byte discriminator, the Borsh encoding of field values of the
/// component's types, and any trailing bytes, reads back as those values.
pub proof fn lemma_decode_account_roundtrip(
    types: Seq<GeneratedType>,
    discriminator: Seq<u8>,
    values: Seq<ArgValue>,
    extra: Seq<u8>,
)
    requires
        discriminator.len() == ACCOUNT_DISCRIMINATOR_LEN,
        types.len() == values.len(),
        forall|i: int| 0 <= i < values.len() ==> serializer_accepts(field_serializer(#[trigger] types[i]), values[i]),
        forall|i: int| 0 <= i < values.len() ==> #[trigger] arg_fits(values[i]),
    ensures
        account_fields(types, discriminator + encoded_args(values) + extra) == Some(
            values.map_values(|v: ArgValue| arg_view(v)),
        ),
{
    let data = discriminator + encoded_args(values) + extra;
    assert(data.skip(ACCOUNT_DISCRIMINATOR_LEN as int) =~= encoded_args(values) + extra);
    lemma_decode_fields_encoded(types, values, extra);
}

} // verus!
