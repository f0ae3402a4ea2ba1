use vstd::prelude::*;

verus! {

/// An Anchor IDL (format 0.31): the program address, its accounts, its
/// instructions and the type definitions that give accounts their fields.
pub struct AnchorIdl {
    pub address: String,
    pub accounts: Vec<IdlAccount>,
    pub instructions: Vec<IdlInstruction>,
    pub types: Vec<IdlDefinedType>,
}

/// One instruction of the program.
pub struct IdlInstruction {
    pub name: String,
    pub discriminator: Vec<u8>,
    pub accounts: Vec<IdlInstructionAccountItem>,
    pub args: Vec<IdlField>,
}

/// An entry of an instruction's account list: one account, or a named group
/// of further entries.
pub enum IdlInstructionAccountItem {
    Account(IdlInstructionAccount),
    Group(IdlInstructionAccountsGroup),
}

/// A named group of account entries.
pub struct IdlInstructionAccountsGroup {
    pub name: String,
    pub accounts: Vec<IdlInstructionAccountItem>,
}

/// One account that an instruction takes.
pub struct IdlInstructionAccount {
    pub name: String,
    pub writable: bool,
    pub signer: bool,
    pub address: Option<String>,
}

/// An account type of the program; its fields live under `types`.
pub struct IdlAccount {
    pub name: String,
}

/// A named type definition.
pub struct IdlDefinedType {
    pub name: String,
    pub ty: IdlType,
}

/// The body of a type definition.
pub struct IdlType {
    pub kind: String,
    pub fields: Vec<IdlField>,
}

/// A named field (or instruction argument) with its IDL type name.
pub struct IdlField {
    pub name: String,
    pub ty: String,
}

/// The accounts that the entries `items` stand for, in order, each group
/// replaced by the accounts it holds.
pub open spec fn flatten_items(items: Seq<IdlInstructionAccountItem>) -> Seq<IdlInstructionAccount>
    decreases items, 1nat,
{
    if items.len() == 0 {
        Seq::empty()
    } else {
        flatten_items(items.drop_last()) + flatten_item(items.last())
    }
}

/// The accounts that one entry stands for.
pub open spec fn flatten_item(item: IdlInstructionAccountItem) -> Seq<IdlInstructionAccount>
    decreases item, 0nat,
{
    match item {
        IdlInstructionAccountItem::Account(account) => seq![account],
        IdlInstructionAccountItem::Group(group) => flatten_items(group.accounts@),
    }
}

/// Appends to `flattened` the accounts of `items` in order, descending into
/// groups depth first.
pub fn flatten_instruction_accounts<'a>(
    items: &'a [IdlInstructionAccountItem],
    flattened: &mut Vec<&'a IdlInstructionAccount>,
)
    ensures
        final(flattened)@.map_values(|a: &IdlInstructionAccount| *a)
            == old(flattened)@.map_values(|a: &IdlInstructionAccount| *a) + flatten_items(items@),
    decreases items@,
{
    let ghost start = flattened@.map_values(|a: &IdlInstructionAccount| *a);
    let mut i: usize = 0;
    while i < items.len()
        invariant
            i <= items.len(),
            flattened@.map_values(|a: &IdlInstructionAccount| *a)
                == start + flatten_items(items@.take(i as int)),
        decreases items.len() - i,
    {
        let ghost before = flattened@.map_values(|a: &IdlInstructionAccount| *a);
        match &items[i] {
            IdlInstructionAccountItem::Account(account) => {
                flattened.push(account);
                assert(flattened@.map_values(|a: &IdlInstructionAccount| *a) =~= before + seq![*account]);
            },
            IdlInstructionAccountItem::Group(group) => {
                assert(decreases_to!(items@ => items@[i as int]));
                flatten_instruction_accounts(group.accounts.as_slice(), flattened);
                assert(flatten_item(items@[i as int]) == flatten_items(group.accounts@));
            },
        }
        assert(items@.take(i + 1).drop_last() =~= items@.take(i as int));
        assert(items@.take(i + 1).last() == items@[i as int]);
        assert(flatten_items(items@.take(i + 1)) == flatten_items(items@.take(i as int))
            + flatten_item(items@[i as int]));
        i = i + 1;
    }
    assert(items@.take(items.len() as int) =~= items@);
}

/// Flattening distributes over concatenation: the accounts of `a` followed by
/// `b` are the accounts of `a` followed by those of `b`.
pub proof fn lemma_flatten_append(a: Seq<IdlInstructionAccountItem>, b: Seq<IdlInstructionAccountItem>)
    ensures
        flatten_items(a + b) == flatten_items(a) + flatten_items(b),
    decreases b.len(),
{
    if b.len() == 0 {
        assert(a + b =~= a);
        assert(flatten_items(a) + flatten_items(b) =~= flatten_items(a));
    } else {
        lemma_flatten_append(a, b.drop_last());
        assert((a + b).drop_last() =~= a + b.drop_last());
        assert((a + b).last() == b.last());
        assert(flatten_items(a + b) =~= flatten_items(a) + flatten_items(b));
    }
}

/// Groups are transparent: an entry list that holds one group stands for the
/// accounts of that group, and wrapping a group in another group changes
/// nothing.
pub proof fn lemma_flatten_group(outer: IdlInstructionAccountsGroup, inner: IdlInstructionAccountsGroup)
    requires
        outer.accounts@ == seq![IdlInstructionAccountItem::Group(inner)],
    ensures
        flatten_items(seq![IdlInstructionAccountItem::Group(inner)]) == flatten_items(inner.accounts@),
        flatten_item(IdlInstructionAccountItem::Group(outer)) == flatten_item(
            IdlInstructionAccountItem::Group(inner),
        ),
{
    let single = seq![IdlInstructionAccountItem::Group(inner)];
    assert(single.drop_last() =~= Seq::<IdlInstructionAccountItem>::empty());
    assert(single.last() == IdlInstructionAccountItem::Group(inner));
    let tail = flatten_items(inner.accounts@);
    assert(flatten_items(single.drop_last()) == Seq::<IdlInstructionAccount>::empty());
    assert(flatten_item(single.last()) == tail);
    assert(flatten_items(single) == flatten_items(single.drop_last()) + flatten_item(single.last()));
    assert(Seq::<IdlInstructionAccount>::empty() + tail =~= tail);
}

/// A list without groups is kept as it is: its accounts are its entries, in
/// order.
pub proof fn lemma_flatten_without_groups(items: Seq<IdlInstructionAccountItem>)
    requires
        forall|i: int| 0 <= i < items.len() ==> #[trigger] items[i] is Account,
    ensures
        flatten_items(items) == items.map_values(|item: IdlInstructionAccountItem| item->Account_0),
    decreases items.len(),
{
    if items.len() > 0 {
        let rest = items.drop_last();
        assert forall|i: int| 0 <= i < rest.len() implies #[trigger] rest[i] is Account by {
            assert(rest[i] == items[i]);
        }
        lemma_flatten_without_groups(rest);
        let f = |item: IdlInstructionAccountItem| item->Account_0;
        assert(items[items.len() - 1] is Account);
        assert(flatten_item(items.last()) == seq![items.last()->Account_0]);
        assert(items.map_values(f) =~= rest.map_values(f).push(items.last()->Account_0));
        assert(flatten_items(items) =~= items.map_values(f));
    } else {
        assert(flatten_items(items) =~= items.map_values(
            |item: IdlInstructionAccountItem| item->Account_0,
        ));
    }
}

} // verus!
