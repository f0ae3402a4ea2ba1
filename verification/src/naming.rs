use vstd::prelude::*;
use vstd::string::{StrSliceExecFns, StringExecFns};

use crate::ident::{is_ident, is_valid_ident};

verus! {

/// The characters that `char::to_uppercase` yields for `c`.
pub uninterp spec fn char_uppercase(c: char) -> Seq<char>;

/// Whether `c` is an ASCII character.
pub open spec fn is_ascii_char(c: char) -> bool {
    (c as u32) < 128
}

/// The ASCII uppercase form of `c`: `a`..`z` become `A`..`Z`, every other
/// character stays as it is.
pub open spec fn ascii_uppercase(c: char) -> char {
    if 97 <= (c as u32) && (c as u32) <= 122 {
        ((c as u32) - 32) as char
    } else {
        c
    }
}

/// The uppercase mapping of `c`, by `char::to_uppercase` collected into a
/// `String`.
///
/// Claimed of the std function: the result depends on `c` alone (named by
/// `char_uppercase`), it is one or more characters, and an ASCII character
/// maps to its ASCII uppercase form, which in turn maps to itself (the
/// documentation of `char::to_ascii_uppercase` says the two agree on ASCII,
/// and ASCII uppercasing leaves `A`..`Z` and non-letters unchanged). What it
/// yields for other characters is left to the name.
#[verifier::external_body]
fn uppercase_of(c: char) -> (up: String)
    ensures
        up@ == char_uppercase(c),
        up@.len() >= 1,
        is_ascii_char(c) ==> up@ == seq![ascii_uppercase(c)],
        is_ascii_char(c) ==> char_uppercase(up@[0]) == up@,
{
    c.to_uppercase().collect::<String>()
}

/// `name` with its first character replaced by that character's uppercase
/// mapping; the empty name stays empty.
pub open spec fn pascal_case(name: Seq<char>) -> Seq<char> {
    if name.len() == 0 {
        Seq::empty()
    } else {
        char_uppercase(name[0]) + name.drop_first()
    }
}

/// `name` with its first character replaced by its uppercase mapping.
fn capitalize_first(name: &str) -> (ident: String)
    ensures
        ident@ == pascal_case(name@),
        name@.len() > 0 ==> ident@.len() >= name@.len(),
        name@.len() > 0 ==> ident@.subrange(ident@.len() - (name@.len() - 1), ident@.len() as int)
            == name@.drop_first(),
        name@.len() > 0 && is_ascii_char(name@[0]) ==> ident@ == seq![ascii_uppercase(name@[0])]
            + name@.drop_first(),
        name@.len() == 0 || is_ascii_char(name@[0]) ==> pascal_case(ident@) == ident@,
{
    let len = name.unicode_len();
    if len == 0 {
        return String::new();
    }
    let first = name.get_char(0);
    let mut ident = uppercase_of(first);
    let rest = name.substring_char(1, len);
    ident.append(rest);
    assert(rest@ =~= name@.drop_first());
    assert(ident@.subrange(ident@.len() - (name@.len() - 1), ident@.len() as int) =~= name@.drop_first());
    proof {
        if is_ascii_char(name@[0]) {
            assert(ident@[0] == ascii_uppercase(name@[0]));
            assert(seq![ident@[0]] + ident@.drop_first() =~= ident@);
        }
    }
    ident
}

/// The type name that the generator derives from an IDL instruction name
/// (`initialize` becomes `Initialize`): the first character in uppercase, the
/// rest unchanged. The result must be an identifier; the generator stops on
/// any other name. Applying it again to its result changes nothing where the
/// name starts with an ASCII character.
pub fn pascal_case_ident(name: &str) -> (ident: String)
    requires
        is_ident(pascal_case(name@)),
    ensures
        ident@ == pascal_case(name@),
        is_ident(ident@),
        ident@.len() >= name@.len(),
        ident@.subrange(ident@.len() - (name@.len() - 1), ident@.len() as int) == name@.drop_first(),
        is_ascii_char(name@[0]) ==> ident@ == seq![ascii_uppercase(name@[0])] + name@.drop_first(),
        is_ascii_char(name@[0]) ==> pascal_case(ident@) == ident@,
{
    capitalize_first(name)
}

/// The type name for `name`, or `None` where it would not be an identifier
/// (an empty name, or one whose capitalized form is not an identifier).
pub fn checked_pascal_case_ident(name: &str) -> (ident: Option<String>)
    ensures
        ident is Some <==> is_ident(pascal_case(name@)),
        ident matches Some(s) ==> s@ == pascal_case(name@),
{
    let candidate = capitalize_first(name);
    if is_valid_ident(candidate.as_str()) {
        Some(pascal_case_ident(name))
    } else {
        None
    }
}

/// The name of the struct that carries an instruction's account keys: the
/// instruction's type name followed by `Accounts`.
pub open spec fn accounts_struct_name(name: Seq<char>) -> Seq<char> {
    pascal_case(name) + "Accounts"@
}

/// The name of the struct that carries the account keys of the instruction
/// named `name`: its type name followed by `Accounts`. Both must be
/// identifiers.
pub fn accounts_struct_ident(name: &str) -> (ident: String)
    requires
        is_ident(pascal_case(name@)),
        is_ident(accounts_struct_name(name@)),
    ensures
        ident@ == accounts_struct_name(name@),
{
    let mut ident = pascal_case_ident(name);
    ident.append("Accounts");
    ident
}

} // verus!
