use vstd::prelude::*;
use vstd::string::StrSliceExecFns;

verus! {

/// Whether `c` has the Unicode property XID_Start.
pub uninterp spec fn xid_start(c: char) -> bool;

/// Whether `c` has the Unicode property XID_Continue.
pub uninterp spec fn xid_continue(c: char) -> bool;

/// Whether `c` has XID_Start, by `unicode_ident::is_xid_start`.
///
/// Claimed of the outside function: its answer depends on the character
/// alone (named by `xid_start`).
#[verifier::external_body]
fn is_xid_start(c: char) -> (b: bool)
    ensures
        b == xid_start(c),
{
    unicode_ident::is_xid_start(c)
}

/// Whether `c` has XID_Continue, by `unicode_ident::is_xid_continue`.
///
/// Claimed of the outside function: its answer depends on the character
/// alone (named by `xid_continue`).
#[verifier::external_body]
fn is_xid_continue(c: char) -> (b: bool)
    ensures
        b == xid_continue(c),
{
    unicode_ident::is_xid_continue(c)
}

/// Whether `name` is accepted as an identifier by `proc_macro2::Ident::new`:
/// it is not empty, starts with `_` or an XID_Start character, and goes on
/// with XID_Continue characters. `Ident::new` panics on any other text.
pub open spec fn is_ident(name: Seq<char>) -> bool {
    &&& name.len() > 0
    &&& (name[0] == '_' || xid_start(name[0]))
    &&& forall|i: int| 1 <= i < name.len() ==> xid_continue(#[trigger] name[i])
}

/// Decides `is_ident` on `name`.
pub fn is_valid_ident(name: &str) -> (valid: bool)
    ensures
        valid == is_ident(name@),
{
    let n = name.unicode_len();
    if n == 0 {
        return false;
    }
    let first = name.get_char(0);
    if first != '_' && !is_xid_start(first) {
        return false;
    }
    let mut i: usize = 1;
    while i < n
        invariant
            1 <= i <= n,
            n == name@.len(),
            forall|j: int| 1 <= j < i ==> xid_continue(#[trigger] name@[j]),
        decreases n - i,
    {
        if !is_xid_continue(name.get_char(i)) {
            return false;
        }
        i = i + 1;
    }
    true
}

/// A one-character name is an identifier exactly when the character is `_`
/// or XID_Start; a longer name is one exactly when all but its last
/// character form an identifier and its last character is XID_Continue. So
/// appending a character that is not XID_Continue to any non-empty name
/// makes it no identifier.
pub proof fn lemma_ident_by_last_char(name: Seq<char>, c: char)
    ensures
        is_ident(seq![c]) <==> (c == '_' || xid_start(c)),
        name.len() > 0 ==> (is_ident(name.push(c)) <==> is_ident(name) && xid_continue(c)),
        name.len() > 0 && !xid_continue(c) ==> !is_ident(name.push(c)),
{
    let longer = name.push(c);
    assert(longer[longer.len() - 1] == c);
    if name.len() > 0 {
        assert(longer[0] == name[0]);
        if is_ident(longer) {
            assert forall|i: int| 1 <= i < name.len() implies xid_continue(#[trigger] name[i]) by {
                assert(longer[i] == name[i]);
            }
        }
        if is_ident(name) && xid_continue(c) {
            assert forall|i: int| 1 <= i < longer.len() implies xid_continue(#[trigger] longer[i]) by {
                if i < name.len() {
                    assert(longer[i] == name[i]);
                }
            }
        }
    } else {
        assert(longer =~= seq![c]);
        if is_ident(seq![c]) {
        }
    }
}

} // verus!
