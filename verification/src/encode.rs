use vstd::prelude::*;
use vstd::bytes::{
    lemma_auto_spec_u32_to_from_le_bytes, lemma_auto_spec_u64_to_from_le_bytes, spec_u32_from_le_bytes,
    spec_u32_to_le_bytes, spec_u64_from_le_bytes, spec_u64_to_le_bytes, u32_to_le_bytes, u64_to_le_bytes,
};
use vstd::utf8::{decode_utf8, encode_utf8, encode_utf8_decode_utf8, encode_utf8_valid_utf8, valid_utf8};

use crate::pubkey::WrappedPubkey;
use crate::types::ArgSerializer;

verus! {

/// A value handed to an instruction builder for one argument.
#[derive(Debug)]
pub enum ArgValue {
    U64(u64),
    I64(i64),
    String(String),
    Bool(bool),
    Pubkey(WrappedPubkey),
}

/// Why an instruction could not be built.
#[derive(Clone, Copy, Debug, PartialEq, Eq, Structural)]
pub enum BuildError {
    /// The builder takes `expected` arguments and was given `given`.
    ArgumentCount { expected: usize, given: usize },
    /// The IDL type of argument `index` has no serializer.
    UnsupportedArgument { index: usize },
    /// Argument `index` is not of the type that its serializer takes.
    ArgumentType { index: usize },
    /// The instruction takes `expected` accounts and was given `given`.
    AccountCount { expected: usize, given: usize },
    /// The program address of the IDL is no Solana address.
    InvalidProgramAddress,
}

/// The UTF-8 bytes of a string argument fit the `u32` length prefix.
pub open spec fn arg_fits(value: ArgValue) -> bool {
    match value {
        ArgValue::String(s) => encode_utf8(s@).len() <= u32::MAX,
        _ => true,
    }
}

/// Whether `serializer` takes `value`.
pub open spec fn serializer_accepts(serializer: ArgSerializer, value: ArgValue) -> bool {
    match serializer {
        ArgSerializer::U64Le => value is U64,
        ArgSerializer::I64Le => value is I64,
        ArgSerializer::LengthPrefixedString => value is String,
        ArgSerializer::BoolByte => value is Bool,
        ArgSerializer::PubkeyBytes => value is Pubkey,
        ArgSerializer::Unsupported => false,
    }
}

/// The bytes that a generated builder appends for one argument (Borsh).
pub open spec fn encoded_arg(value: ArgValue) -> Seq<u8> {
    match value {
        ArgValue::U64(x) => spec_u64_to_le_bytes(x),
        ArgValue::I64(x) => spec_u64_to_le_bytes(x as u64),
        ArgValue::String(s) => spec_u32_to_le_bytes(encode_utf8(s@).len() as u32) + encode_utf8(s@),
        ArgValue::Bool(b) => seq![if b { 1u8 } else { 0u8 }],
        ArgValue::Pubkey(k) => k.0@,
    }
}

/// The bytes of all arguments, in order.
pub open spec fn encoded_args(args: Seq<ArgValue>) -> Seq<u8>
    decreases args.len(),
{
    if args.len() == 0 {
        Seq::empty()
    } else {
        encoded_args(args.drop_last()) + encoded_arg(args.last())
    }
}

/// The instruction data: the discriminator, then the arguments.
pub open spec fn instruction_data(discriminator: Seq<u8>, args: Seq<ArgValue>) -> Seq<u8> {
    discriminator + encoded_args(args)
}

/// Argument `i` is taken by serializer `i`.
pub open spec fn accepted_at(serializers: Seq<ArgSerializer>, args: Seq<ArgValue>, i: int) -> bool {
    serializer_accepts(serializers[i], args[i])
}

/// Every argument is taken by its serializer.
pub open spec fn all_accepted(serializers: Seq<ArgSerializer>, args: Seq<ArgValue>) -> bool {
    forall|i: int| 0 <= i < args.len() ==> #[trigger] accepted_at(serializers, args, i)
}

/// The error for the first argument `index` that its serializer refuses.
pub open spec fn rejection(serializers: Seq<ArgSerializer>, index: int) -> BuildError {
    if serializers[index] == ArgSerializer::Unsupported {
        BuildError::UnsupportedArgument { index: index as usize }
    } else {
        BuildError::ArgumentType { index: index as usize }
    }
}

/// `index` is the first argument that its serializer refuses.
pub open spec fn first_rejected(serializers: Seq<ArgSerializer>, args: Seq<ArgValue>, index: int) -> bool {
    &&& 0 <= index < args.len()
    &&& !accepted_at(serializers, args, index)
    &&& forall|j: int| 0 <= j < index ==> #[trigger] accepted_at(serializers, args, j)
}

/// What building the data of an instruction gives: a count error, the error
/// of the first refused argument, or the data.
pub open spec fn spec_encode_instruction_data(
    discriminator: Seq<u8>,
    serializers: Seq<ArgSerializer>,
    args: Seq<ArgValue>,
    result: Result<Seq<u8>, BuildError>,
) -> bool {
    if serializers.len() != args.len() {
        result == Err::<Seq<u8>, BuildError>(
            BuildError::ArgumentCount { expected: serializers.len() as usize, given: args.len() as usize },
        )
    } else if all_accepted(serializers, args) {
        result == Ok::<Seq<u8>, BuildError>(instruction_data(discriminator, args))
    } else {
        exists|index: int|
            first_rejected(serializers, args, index) && result == Err::<Seq<u8>, BuildError>(
                rejection(serializers, index),
            )
    }
}

/// Appends `bytes` to `data`.
pub(crate) fn push_bytes(data: &mut Vec<u8>, bytes: &[u8])
    ensures
        final(data)@ == old(data)@ + bytes@,
{
    let mut i: usize = 0;
    while i < bytes.len()
        invariant
            i <= bytes.len(),
            data@ == old(data)@ + bytes@.take(i as int),
        decreases bytes.len() - i,
    {
        data.push(bytes[i]);
        assert(bytes@.take(i + 1) =~= bytes@.take(i as int).push(bytes@[i as int]));
        i = i + 1;
    }
    assert(bytes@.take(bytes.len() as int) =~= bytes@);
}

/// Appends the encoding of one argument to `data`, as the serializer code
/// that the generator emits for it does.
pub fn encode_arg(value: &ArgValue, data: &mut Vec<u8>)
    requires
        arg_fits(*value),
    ensures
        final(data)@ == old(data)@ + encoded_arg(*value),
{
    match value {
        ArgValue::U64(x) => {
            let bytes = u64_to_le_bytes(*x);
            push_bytes(data, bytes.as_slice());
        },
        ArgValue::I64(x) => {
            let bytes = u64_to_le_bytes(*x as u64);
            push_bytes(data, bytes.as_slice());
        },
        ArgValue::String(s) => {
            let text = s.as_str().as_bytes();
            let len = text.len();
            let prefix = u32_to_le_bytes(len as u32);
            push_bytes(data, prefix.as_slice());
            push_bytes(data, text);
            assert(data@ =~= old(data)@ + encoded_arg(*value));
        },
        ArgValue::Bool(b) => {
            data.push(if *b { 1u8 } else { 0u8 });
        },
        ArgValue::Pubkey(k) => {
            let key: [u8; 32] = k.0;
            let mut i: usize = 0;
            while i < 32
                invariant
                    i <= 32,
                    key@ == k.0@,
                    data@ == old(data)@ + key@.take(i as int),
                decreases 32 - i,
            {
                data.push(key[i]);
                assert(key@.take(i + 1) =~= key@.take(i as int).push(key@[i as int]));
                i = i + 1;
            }
            assert(key@.take(32) =~= key@);
        },
    }
}

/// Builds the instruction data from the discriminator and the arguments, as
/// the builder that the generator emits for an instruction does: the
/// discriminator, then each argument by its serializer.
pub fn encode_instruction_data(
    discriminator: &[u8],
    serializers: &[ArgSerializer],
    args: &[ArgValue],
) -> (result: Result<Vec<u8>, BuildError>)
    requires
        forall|i: int| 0 <= i < args@.len() ==> #[trigger] arg_fits(args@[i]),
    ensures
        spec_encode_instruction_data(
            discriminator@,
            serializers@,
            args@,
            match result {
                Ok(data) => Ok::<Seq<u8>, BuildError>(data@),
                Err(e) => Err::<Seq<u8>, BuildError>(e),
            },
        ),
{
    if serializers.len() != args.len() {
        return Err(BuildError::ArgumentCount { expected: serializers.len(), given: args.len() });
    }
    let mut i: usize = 0;
    while i < args.len()
        invariant
            i <= args.len(),
            serializers@.len() == args@.len(),
            forall|j: int| 0 <= j < i ==> #[trigger] accepted_at(serializers@, args@, j),
        decreases args.len() - i,
    {
        let ok = match (&serializers[i], &args[i]) {
            (ArgSerializer::U64Le, ArgValue::U64(_)) => true,
            (ArgSerializer::I64Le, ArgValue::I64(_)) => true,
            (ArgSerializer::LengthPrefixedString, ArgValue::String(_)) => true,
            (ArgSerializer::BoolByte, ArgValue::Bool(_)) => true,
            (ArgSerializer::PubkeyBytes, ArgValue::Pubkey(_)) => true,
            _ => false,
        };
        if !ok {
            assert(first_rejected(serializers@, args@, i as int));
            return match serializers[i] {
                ArgSerializer::Unsupported => Err(BuildError::UnsupportedArgument { index: i }),
                _ => Err(BuildError::ArgumentType { index: i }),
            };
        }
        i = i + 1;
    }
    let mut data: Vec<u8> = Vec::new();
    push_bytes(&mut data, discriminator);
    let mut k: usize = 0;
    while k < args.len()
        invariant
            k <= args.len(),
            forall|i: int| 0 <= i < args@.len() ==> #[trigger] arg_fits(args@[i]),
            data@ == discriminator@ + encoded_args(args@.take(k as int)),
        decreases args.len() - k,
    {
        encode_arg(&args[k], &mut data);
        assert(args@.take(k + 1).drop_last() =~= args@.take(k as int));
        assert(args@.take(k + 1).last() == args@[k as int]);
        k = k + 1;
    }
    assert(args@.take(args.len() as int) =~= args@);
    Ok(data)
}

/// The number of bytes that one argument takes in the instruction data.
pub open spec fn arg_size(value: ArgValue) -> nat {
    match value {
        ArgValue::U64(_) => 8,
        ArgValue::I64(_) => 8,
        ArgValue::String(s) => 4 + encode_utf8(s@).len(),
        ArgValue::Bool(_) => 1,
        ArgValue::Pubkey(_) => 32,
    }
}

/// The number of bytes that all arguments take.
pub open spec fn args_size(args: Seq<ArgValue>) -> nat
    decreases args.len(),
{
    if args.len() == 0 {
        0
    } else {
        args_size(args.drop_last()) + arg_size(args.last())
    }
}

/// An argument as the mathematical value that its bytes carry.
pub enum DecodedArg {
    U64(u64),
    I64(i64),
    Text(Seq<char>),
    Bool(bool),
    Key(Seq<u8>),
}

/// The value that argument `value` carries.
pub open spec fn arg_view(value: ArgValue) -> DecodedArg {
    match value {
        ArgValue::U64(x) => DecodedArg::U64(x),
        ArgValue::I64(x) => DecodedArg::I64(x),
        ArgValue::String(s) => DecodedArg::Text(s@),
        ArgValue::Bool(b) => DecodedArg::Bool(b),
        ArgValue::Pubkey(k) => DecodedArg::Key(k.0@),
    }
}

/// Reads one argument of serializer `serializer` from the front of `bytes`
/// (Borsh): the value and the number of bytes it took, or `None` where the
/// bytes run out, a string is not UTF-8, or a bool byte is neither 0 nor 1.
pub open spec fn decode_arg(serializer: ArgSerializer, bytes: Seq<u8>) -> Option<(DecodedArg, nat)> {
    match serializer {
        ArgSerializer::U64Le => if bytes.len() >= 8 {
            Some((DecodedArg::U64(spec_u64_from_le_bytes(bytes.take(8))), 8))
        } else {
            None
        },
        ArgSerializer::I64Le => if bytes.len() >= 8 {
            Some((DecodedArg::I64(spec_u64_from_le_bytes(bytes.take(8)) as i64), 8))
        } else {
            None
        },
        ArgSerializer::LengthPrefixedString => if bytes.len() >= 4 {
            let n = spec_u32_from_le_bytes(bytes.take(4)) as nat;
            if bytes.len() >= 4 + n && valid_utf8(bytes.subrange(4, 4 + n as int)) {
                Some((DecodedArg::Text(decode_utf8(bytes.subrange(4, 4 + n as int))), (4 + n) as nat))
            } else {
                None
            }
        } else {
            None
        },
        ArgSerializer::BoolByte => if bytes.len() >= 1 && bytes[0] == 1 {
            Some((DecodedArg::Bool(true), 1))
        } else if bytes.len() >= 1 && bytes[0] == 0 {
            Some((DecodedArg::Bool(false), 1))
        } else {
            None
        },
        ArgSerializer::PubkeyBytes => if bytes.len() >= 32 {
            Some((DecodedArg::Key(bytes.take(32)), 32))
        } else {
            None
        },
        ArgSerializer::Unsupported => None,
    }
}

/// Reads the arguments of `serializers`, in order, from `bytes`, which they
/// must use up.
pub open spec fn decode_args(serializers: Seq<ArgSerializer>, bytes: Seq<u8>) -> Option<Seq<DecodedArg>>
    decreases serializers.len(),
{
    if serializers.len() == 0 {
        if bytes.len() == 0 {
            Some(Seq::empty())
        } else {
            None
        }
    } else {
        match decode_arg(serializers[0], bytes) {
            Some((value, n)) => match decode_args(serializers.drop_first(), bytes.skip(n as int)) {
                Some(rest) => Some(seq![value] + rest),
                None => None,
            },
            None => None,
        }
    }
}

/// The encoding of one argument takes `arg_size` bytes.
pub proof fn lemma_encoded_arg_len(value: ArgValue)
    requires
        arg_fits(value),
    ensures
        encoded_arg(value).len() == arg_size(value),
{
    lemma_auto_spec_u64_to_from_le_bytes();
    lemma_auto_spec_u32_to_from_le_bytes();
    match value {
        ArgValue::Pubkey(k) => {
            assert(k.0@.len() == 32);
        },
        _ => {},
    }
}

/// The encoding of a concatenation is the concatenation of the encodings.
pub proof fn lemma_encoded_args_append(a: Seq<ArgValue>, b: Seq<ArgValue>)
    ensures
        encoded_args(a + b) == encoded_args(a) + encoded_args(b),
    decreases b.len(),
{
    if b.len() == 0 {
        assert(a + b =~= a);
        assert(encoded_args(a) + encoded_args(b) =~= encoded_args(a));
    } else {
        lemma_encoded_args_append(a, b.drop_last());
        assert((a + b).drop_last() =~= a + b.drop_last());
        assert((a + b).last() == b.last());
        assert(encoded_args(a + b) =~= encoded_args(a) + encoded_args(b));
    }
}

/// The arguments take `args_size` bytes, so the instruction data is the
/// discriminator's length plus that many bytes long, and starts with the
/// discriminator.
pub proof fn lemma_instruction_data_layout(discriminator: Seq<u8>, args: Seq<ArgValue>)
    requires
        forall|i: int| 0 <= i < args.len() ==> #[trigger] arg_fits(args[i]),
    ensures
        encoded_args(args).len() == args_size(args),
        instruction_data(discriminator, args).len() == discriminator.len() + args_size(args),
        instruction_data(discriminator, args).take(discriminator.len() as int) == discriminator,
        instruction_data(discriminator, args).skip(discriminator.len() as int) == encoded_args(args),
    decreases args.len(),
{
    if args.len() > 0 {
        let rest = args.drop_last();
        assert forall|i: int| 0 <= i < rest.len() implies #[trigger] arg_fits(rest[i]) by {
            assert(rest[i] == args[i]);
        }
        lemma_instruction_data_layout(discriminator, rest);
        lemma_encoded_arg_len(args.last());
    }
    let data = instruction_data(discriminator, args);
    assert(data.take(discriminator.len() as int) =~= discriminator);
    assert(data.skip(discriminator.len() as int) =~= encoded_args(args));
}

/// Reading back one argument from the front of its encoding followed by
/// anything gives the argument and the size of its encoding.
pub proof fn lemma_decode_encoded_arg(serializer: ArgSerializer, value: ArgValue, rest: Seq<u8>)
    requires
        serializer_accepts(serializer, value),
        arg_fits(value),
    ensures
        decode_arg(serializer, encoded_arg(value) + rest) == Some((arg_view(value), arg_size(value))),
{
    lemma_auto_spec_u64_to_from_le_bytes();
    lemma_auto_spec_u32_to_from_le_bytes();
    lemma_encoded_arg_len(value);
    let bytes = encoded_arg(value) + rest;
    match value {
        ArgValue::U64(x) => {
            assert(bytes.take(8) =~= spec_u64_to_le_bytes(x));
        },
        ArgValue::I64(x) => {
            assert(bytes.take(8) =~= spec_u64_to_le_bytes(x as u64));
            assert((x as u64) as i64 == x) by (bit_vector);
        },
        ArgValue::String(s) => {
            let text = encode_utf8(s@);
            let n = text.len() as u32;
            assert(bytes.take(4) =~= spec_u32_to_le_bytes(n));
            assert(spec_u32_from_le_bytes(bytes.take(4)) == n);
            assert(bytes.subrange(4, 4 + n as int) =~= text);
            encode_utf8_decode_utf8(s@);
            encode_utf8_valid_utf8(s@);
        },
        ArgValue::Bool(b) => {
            assert(bytes[0] == if b { 1u8 } else { 0u8 });
        },
        ArgValue::Pubkey(k) => {
            assert(bytes.take(32) =~= k.0@);
        },
    }
}

/// The encoding of the first argument followed by that of the others.
proof fn lemma_encoded_args_first(args: Seq<ArgValue>)
    requires
        args.len() > 0,
    ensures
        encoded_args(args) == encoded_arg(args[0]) + encoded_args(args.drop_first()),
{
    let first = seq![args[0]];
    assert(first + args.drop_first() =~= args);
    lemma_encoded_args_append(first, args.drop_first());
    assert(first.drop_last() =~= Seq::<ArgValue>::empty());
    assert(first.last() == args[0]);
    assert(encoded_args(first.drop_last()) == Seq::<u8>::empty());
    assert(encoded_args(first) == encoded_args(first.drop_last()) + encoded_arg(first.last()));
    assert(encoded_args(first) =~= encoded_arg(args[0]));
}

/// The instruction data determines the arguments: reading the bytes after
/// the discriminator by the serializers gives back exactly the values that
/// were encoded, so no two argument lists that the serializers take encode
/// alike.
pub proof fn lemma_decode_instruction_data(
    discriminator: Seq<u8>,
    serializers: Seq<ArgSerializer>,
    args: Seq<ArgValue>,
)
    requires
        serializers.len() == args.len(),
        all_accepted(serializers, args),
        forall|i: int| 0 <= i < args.len() ==> #[trigger] arg_fits(args[i]),
    ensures
        decode_args(
            serializers,
            instruction_data(discriminator, args).skip(discriminator.len() as int),
        ) == Some(args.map_values(|v: ArgValue| arg_view(v))),
    decreases args.len(),
{
    lemma_instruction_data_layout(discriminator, args);
    let bytes = encoded_args(args);
    if args.len() == 0 {
        assert(args.map_values(|v: ArgValue| arg_view(v)) =~= Seq::<DecodedArg>::empty());
    } else {
        let rest_args = args.drop_first();
        let rest_sers = serializers.drop_first();
        assert(accepted_at(serializers, args, 0));
        lemma_encoded_args_first(args);
        lemma_decode_encoded_arg(serializers[0], args[0], encoded_args(rest_args));
        lemma_encoded_arg_len(args[0]);
        assert(bytes.skip(arg_size(args[0]) as int) =~= encoded_args(rest_args));
        assert forall|i: int| 0 <= i < rest_args.len() implies #[trigger] accepted_at(
            rest_sers,
            rest_args,
            i,
        ) by {
            assert(accepted_at(serializers, args, i + 1));
        }
        assert forall|i: int| 0 <= i < rest_args.len() implies #[trigger] arg_fits(rest_args[i]) by {
            assert(arg_fits(args[i + 1]));
        }
        lemma_decode_instruction_data(Seq::empty(), rest_sers, rest_args);
        assert(instruction_data(Seq::empty(), rest_args).skip(0) =~= encoded_args(rest_args));
        assert(args.map_values(|v: ArgValue| arg_view(v)) =~= seq![arg_view(args[0])] + rest_args.map_values(
            |v: ArgValue| arg_view(v),
        ));
    }
}

} // verus!
