use vstd::prelude::*;

use crate::idl::{
    flatten_instruction_accounts, flatten_items, AnchorIdl, IdlAccount, IdlDefinedType, IdlField,
    IdlInstruction, IdlInstructionAccount,
};
use crate::ident::{is_ident, is_valid_ident};
use crate::naming::{
    accounts_struct_ident, accounts_struct_name, checked_pascal_case_ident, pascal_case, pascal_case_ident,
};
use crate::pubkey::{base58_value, big_endian_value, decode_base58_address, is_address_text, WrappedPubkey};
use crate::types::{
    arg_serializer, arg_type, field_type, idl_arg_serializer_tokens, idl_field_type_tokens,
    idl_instruction_arg_type_tokens, ArgSerializer, GeneratedType,
};

verus! {

/// A named field of a generated struct, or an argument of a generated builder.
pub struct FieldPlan {
    pub name: String,
    pub ty: GeneratedType,
}

/// A generated component: an IDL account with the fields of its type.
pub struct ComponentPlan {
    pub name: String,
    pub fields: Vec<FieldPlan>,
}

/// One account that a generated builder puts into the instruction, in order.
pub struct AccountMetaPlan {
    pub name: String,
    pub writable: bool,
    pub signer: bool,
}

/// Everything that the generator emits for one IDL instruction.
pub struct InstructionPlan {
    /// The component that holds the instruction's arguments.
    pub component_name: String,
    /// The builder function.
    pub builder_name: String,
    /// The struct that holds the keys of the instruction's accounts.
    pub accounts_struct_name: String,
    /// The fields of the component.
    pub fields: Vec<FieldPlan>,
    /// The builder's arguments after the accounts struct.
    pub function_args: Vec<FieldPlan>,
    /// The instruction's accounts, groups flattened.
    pub accounts: Vec<AccountMetaPlan>,
    /// The first bytes of the instruction data.
    pub discriminator: Vec<u8>,
    /// How each argument is appended to the instruction data.
    pub serializers: Vec<ArgSerializer>,
}

/// Everything that the generator emits for an IDL.
pub struct GenerationPlan {
    /// The program address as written in the IDL.
    pub program_address: String,
    /// The key that the address denotes; `None` where it is no base58 address.
    pub program_id: Option<WrappedPubkey>,
    pub components: Vec<ComponentPlan>,
    pub instructions: Vec<InstructionPlan>,
}

/// A field as a mathematical value.
pub struct FieldSpec {
    pub name: Seq<char>,
    pub ty: GeneratedType,
}

/// A component as a mathematical value.
pub struct ComponentSpec {
    pub name: Seq<char>,
    pub fields: Seq<FieldSpec>,
}

/// An account entry of a builder as a mathematical value.
pub struct AccountMetaSpec {
    pub name: Seq<char>,
    pub writable: bool,
    pub signer: bool,
}

/// An instruction plan as a mathematical value.
pub struct InstructionSpec {
    pub component_name: Seq<char>,
    pub builder_name: Seq<char>,
    pub accounts_struct_name: Seq<char>,
    pub fields: Seq<FieldSpec>,
    pub function_args: Seq<FieldSpec>,
    pub accounts: Seq<AccountMetaSpec>,
    pub discriminator: Seq<u8>,
    pub serializers: Seq<ArgSerializer>,
}

impl View for FieldPlan {
    type V = FieldSpec;

    open spec fn view(&self) -> FieldSpec {
        FieldSpec { name: self.name@, ty: self.ty }
    }
}

impl View for ComponentPlan {
    type V = ComponentSpec;

    open spec fn view(&self) -> ComponentSpec {
        ComponentSpec { name: self.name@, fields: self.fields@.map_values(|f: FieldPlan| f@) }
    }
}

impl View for AccountMetaPlan {
    type V = AccountMetaSpec;

    open spec fn view(&self) -> AccountMetaSpec {
        AccountMetaSpec { name: self.name@, writable: self.writable, signer: self.signer }
    }
}

impl View for InstructionPlan {
    type V = InstructionSpec;

    open spec fn view(&self) -> InstructionSpec {
        InstructionSpec {
            component_name: self.component_name@,
            builder_name: self.builder_name@,
            accounts_struct_name: self.accounts_struct_name@,
            fields: self.fields@.map_values(|f: FieldPlan| f@),
            function_args: self.function_args@.map_values(|f: FieldPlan| f@),
            accounts: self.accounts@.map_values(|a: AccountMetaPlan| a@),
            discriminator: self.discriminator@,
            serializers: self.serializers@,
        }
    }
}

/// The component fields that IDL fields become.
pub open spec fn component_fields(fields: Seq<IdlField>) -> Seq<FieldSpec> {
    fields.map_values(|f: IdlField| FieldSpec { name: f.name@, ty: field_type(f.ty@) })
}

/// The builder arguments that IDL arguments become.
pub open spec fn builder_args(fields: Seq<IdlField>) -> Seq<FieldSpec> {
    fields.map_values(|f: IdlField| FieldSpec { name: f.name@, ty: arg_type(f.ty@) })
}

/// The index of the first type named `name` at or after `start`, or -1.
pub open spec fn type_index_from(types: Seq<IdlDefinedType>, name: Seq<char>, start: int) -> int
    decreases types.len() - start,
{
    if start < 0 || start >= types.len() {
        -1
    } else if types[start].name@ == name {
        start
    } else {
        type_index_from(types, name, start + 1)
    }
}

/// The index of the first type named `name`, or -1.
pub open spec fn type_index(types: Seq<IdlDefinedType>, name: Seq<char>) -> int {
    type_index_from(types, name, 0)
}

/// The components generated for `accounts`: one for each account that has a
/// type of the same name, with the fields of the first such type, in the
/// order of the accounts.
pub open spec fn component_specs(accounts: Seq<IdlAccount>, types: Seq<IdlDefinedType>) -> Seq<ComponentSpec>
    decreases accounts.len(),
{
    if accounts.len() == 0 {
        Seq::empty()
    } else {
        let rest = component_specs(accounts.drop_last(), types);
        let account = accounts.last();
        let k = type_index(types, account.name@);
        if k >= 0 {
            rest.push(ComponentSpec { name: account.name@, fields: component_fields(types[k].ty.fields@) })
        } else {
            rest
        }
    }
}

/// The builder entry of an account.
pub open spec fn account_meta_spec(account: IdlInstructionAccount) -> AccountMetaSpec {
    AccountMetaSpec { name: account.name@, writable: account.writable, signer: account.signer }
}

/// What the generator emits for an instruction.
pub open spec fn instruction_spec(instr: IdlInstruction) -> InstructionSpec {
    InstructionSpec {
        component_name: pascal_case(instr.name@),
        builder_name: instr.name@,
        accounts_struct_name: accounts_struct_name(instr.name@),
        fields: component_fields(instr.args@),
        function_args: builder_args(instr.args@),
        accounts: flatten_items(instr.accounts@).map_values(|a: IdlInstructionAccount| account_meta_spec(a)),
        discriminator: instr.discriminator@,
        serializers: instr.args@.map_values(|f: IdlField| arg_serializer(f.ty@)),
    }
}

/// Every field is named by an identifier.
pub open spec fn fields_named_validly(fields: Seq<IdlField>) -> bool {
    forall|i: int| 0 <= i < fields.len() ==> is_ident((#[trigger] fields[i]).name@)
}

/// The names that the generator turns into identifiers for the accounts are
/// identifiers: every account's name, and the field names of the type that
/// an account takes its fields from.
pub open spec fn component_idents_valid(accounts: Seq<IdlAccount>, types: Seq<IdlDefinedType>) -> bool {
    forall|i: int|
        0 <= i < accounts.len() ==> {
            &&& is_ident((#[trigger] accounts[i]).name@)
            &&& type_index(types, accounts[i].name@) >= 0 ==> fields_named_validly(
                types[type_index(types, accounts[i].name@)].ty.fields@,
            )
        }
}

/// The names that the generator turns into identifiers for an instruction
/// are identifiers: its type name, its own name, its accounts struct name,
/// its argument names and the names of its flattened accounts.
pub open spec fn instruction_idents_valid(instr: IdlInstruction) -> bool {
    &&& is_ident(pascal_case(instr.name@))
    &&& is_ident(instr.name@)
    &&& is_ident(accounts_struct_name(instr.name@))
    &&& fields_named_validly(instr.args@)
    &&& forall|i: int|
        0 <= i < flatten_items(instr.accounts@).len() ==> is_ident(
            (#[trigger] flatten_items(instr.accounts@)[i]).name@,
        )
}

/// Every name that the generator turns into an identifier is one.
pub open spec fn idl_idents_valid(idl: AnchorIdl) -> bool {
    &&& component_idents_valid(idl.accounts@, idl.types@)
    &&& forall|i: int| 0 <= i < idl.instructions@.len() ==> instruction_idents_valid(
        #[trigger] idl.instructions@[i],
    )
}

/// Decides `fields_named_validly`.
fn fields_ok(fields: &Vec<IdlField>) -> (ok: bool)
    ensures
        ok == fields_named_validly(fields@),
{
    let mut i: usize = 0;
    while i < fields.len()
        invariant
            i <= fields.len(),
            forall|j: int| 0 <= j < i ==> is_ident((#[trigger] fields@[j]).name@),
        decreases fields.len() - i,
    {
        if !is_valid_ident(fields[i].name.as_str()) {
            return false;
        }
        i = i + 1;
    }
    true
}

/// Decides `component_idents_valid` for an IDL.
fn components_ok(idl: &AnchorIdl) -> (ok: bool)
    ensures
        ok == component_idents_valid(idl.accounts@, idl.types@),
{
    let mut i: usize = 0;
    while i < idl.accounts.len()
        invariant
            i <= idl.accounts.len(),
            forall|j: int|
                0 <= j < i ==> {
                    &&& is_ident((#[trigger] idl.accounts@[j]).name@)
                    &&& type_index(idl.types@, idl.accounts@[j].name@) >= 0 ==> fields_named_validly(
                        idl.types@[type_index(idl.types@, idl.accounts@[j].name@)].ty.fields@,
                    )
                },
        decreases idl.accounts.len() - i,
    {
        let account = &idl.accounts[i];
        if !is_valid_ident(account.name.as_str()) {
            return false;
        }
        match find_defined_type(&idl.types, &account.name) {
            Some(k) => {
                if !fields_ok(&idl.types[k].ty.fields) {
                    return false;
                }
            },
            None => {},
        }
        i = i + 1;
    }
    true
}

/// Decides `instruction_idents_valid`.
fn instruction_ok(instr: &IdlInstruction) -> (ok: bool)
    ensures
        ok == instruction_idents_valid(*instr),
{
    let mut struct_name = match checked_pascal_case_ident(instr.name.as_str()) {
        Some(s) => s,
        None => return false,
    };
    if !is_valid_ident(instr.name.as_str()) {
        return false;
    }
    struct_name.append("Accounts");
    if !is_valid_ident(struct_name.as_str()) {
        return false;
    }
    if !fields_ok(&instr.args) {
        return false;
    }
    let mut flattened: Vec<&IdlInstructionAccount> = Vec::new();
    flatten_instruction_accounts(instr.accounts.as_slice(), &mut flattened);
    let ghost flat = flatten_items(instr.accounts@);
    assert(flattened@.map_values(|a: &IdlInstructionAccount| *a) =~= flat);
    let mut i: usize = 0;
    while i < flattened.len()
        invariant
            i <= flattened.len(),
            flattened@.map_values(|a: &IdlInstructionAccount| *a) == flat,
            flat == flatten_items(instr.accounts@),
            forall|j: int| 0 <= j < i ==> is_ident((#[trigger] flat[j]).name@),
        decreases flattened.len() - i,
    {
        assert(flattened@.map_values(|a: &IdlInstructionAccount| *a)[i as int] == *flattened@[i as int]);
        assert(*flattened@[i as int] == flat[i as int]);
        if !is_valid_ident(flattened[i].name.as_str()) {
            assert(!is_ident(flatten_items(instr.accounts@)[i as int].name@));
            return false;
        }
        i = i + 1;
    }
    true
}

/// Decides `idl_idents_valid`.
fn idl_ok(idl: &AnchorIdl) -> (ok: bool)
    ensures
        ok == idl_idents_valid(*idl),
{
    if !components_ok(idl) {
        return false;
    }
    let mut i: usize = 0;
    while i < idl.instructions.len()
        invariant
            i <= idl.instructions.len(),
            forall|j: int| 0 <= j < i ==> instruction_idents_valid(#[trigger] idl.instructions@[j]),
        decreases idl.instructions.len() - i,
    {
        if !instruction_ok(&idl.instructions[i]) {
            return false;
        }
        i = i + 1;
    }
    true
}

/// What the generator emits for `idl`, or `None` where some name that it
/// would turn into an identifier is not one (where the generator stops).
pub fn try_generate_bevy_components(idl: &AnchorIdl) -> (r: Option<GenerationPlan>)
    ensures
        r is Some <==> idl_idents_valid(*idl),
        r matches Some(p) ==> {
            &&& p.program_address@ == idl.address@
            &&& (p.program_id is Some <==> is_address_text(idl.address@))
            &&& (p.program_id matches Some(k) ==> big_endian_value(k.0@) == base58_value(idl.address@))
            &&& p.components@.map_values(|c: ComponentPlan| c@) == component_specs(idl.accounts@, idl.types@)
            &&& p.instructions@.map_values(|q: InstructionPlan| q@) == idl.instructions@.map_values(
                |instr: IdlInstruction| instruction_spec(instr),
            )
        },
{
    if idl_ok(idl) {
        Some(generate_bevy_components(idl))
    } else {
        None
    }
}

/// Copies a string.
fn copy_string(s: &String) -> (r: String)
    ensures
        r@ == s@,
{
    s.clone()
}

/// The component fields for `fields`.
fn plan_fields(fields: &Vec<IdlField>) -> (r: Vec<FieldPlan>)
    ensures
        r@.map_values(|f: FieldPlan| f@) == component_fields(fields@),
{
    let mut r: Vec<FieldPlan> = Vec::new();
    let mut i: usize = 0;
    while i < fields.len()
        invariant
            i <= fields.len(),
            r@.map_values(|f: FieldPlan| f@) == component_fields(fields@.take(i as int)),
        decreases fields.len() - i,
    {
        let ty = idl_field_type_tokens(fields[i].ty.as_str());
        r.push(FieldPlan { name: copy_string(&fields[i].name), ty });
        assert(component_fields(fields@.take(i + 1)) =~= component_fields(fields@.take(i as int)).push(
            FieldSpec { name: fields@[i as int].name@, ty: field_type(fields@[i as int].ty@) },
        ));
        assert(r@.map_values(|f: FieldPlan| f@) =~= component_fields(fields@.take(i + 1)));
        i = i + 1;
    }
    assert(fields@.take(fields.len() as int) =~= fields@);
    r
}

/// The builder arguments for `fields`.
fn plan_function_args(fields: &Vec<IdlField>) -> (r: Vec<FieldPlan>)
    ensures
        r@.map_values(|f: FieldPlan| f@) == builder_args(fields@),
{
    let mut r: Vec<FieldPlan> = Vec::new();
    let mut i: usize = 0;
    while i < fields.len()
        invariant
            i <= fields.len(),
            r@.map_values(|f: FieldPlan| f@) == builder_args(fields@.take(i as int)),
        decreases fields.len() - i,
    {
        let ty = idl_instruction_arg_type_tokens(fields[i].ty.as_str());
        r.push(FieldPlan { name: copy_string(&fields[i].name), ty });
        assert(builder_args(fields@.take(i + 1)) =~= builder_args(fields@.take(i as int)).push(
            FieldSpec { name: fields@[i as int].name@, ty: arg_type(fields@[i as int].ty@) },
        ));
        assert(r@.map_values(|f: FieldPlan| f@) =~= builder_args(fields@.take(i + 1)));
        i = i + 1;
    }
    assert(fields@.take(fields.len() as int) =~= fields@);
    r
}

/// The serializers for `fields`.
fn plan_serializers(fields: &Vec<IdlField>) -> (r: Vec<ArgSerializer>)
    ensures
        r@ == fields@.map_values(|f: IdlField| arg_serializer(f.ty@)),
{
    let mut r: Vec<ArgSerializer> = Vec::new();
    let mut i: usize = 0;
    while i < fields.len()
        invariant
            i <= fields.len(),
            r@ == fields@.take(i as int).map_values(|f: IdlField| arg_serializer(f.ty@)),
        decreases fields.len() - i,
    {
        r.push(idl_arg_serializer_tokens(fields[i].ty.as_str()));
        assert(fields@.take(i + 1).map_values(|f: IdlField| arg_serializer(f.ty@)) =~= fields@.take(
            i as int,
        ).map_values(|f: IdlField| arg_serializer(f.ty@)).push(arg_serializer(fields@[i as int].ty@)));
        i = i + 1;
    }
    assert(fields@.take(fields.len() as int) =~= fields@);
    r
}

/// Copies a byte vector.
fn copy_bytes(bytes: &Vec<u8>) -> (r: Vec<u8>)
    ensures
        r@ == bytes@,
{
    let mut r: Vec<u8> = Vec::new();
    crate::encode::push_bytes(&mut r, bytes.as_slice());
    assert(r@ =~= bytes@);
    r
}

/// The index of the first type named `name`.
fn find_defined_type(types: &Vec<IdlDefinedType>, name: &String) -> (r: Option<usize>)
    ensures
        match r {
            Some(k) => type_index(types@, name@) == k as int && k < types@.len(),
            None => type_index(types@, name@) == -1,
        },
{
    let mut i: usize = 0;
    while i < types.len()
        invariant
            i <= types.len(),
            type_index(types@, name@) == type_index_from(types@, name@, i as int),
        decreases types.len() - i,
    {
        if types[i].name == *name {
            return Some(i);
        }
        i = i + 1;
    }
    None
}

/// The components that the generator emits for `idl`.
pub fn plan_components(idl: &AnchorIdl) -> (r: Vec<ComponentPlan>)
    requires
        component_idents_valid(idl.accounts@, idl.types@),
    ensures
        r@.map_values(|c: ComponentPlan| c@) == component_specs(idl.accounts@, idl.types@),
{
    let mut r: Vec<ComponentPlan> = Vec::new();
    let mut i: usize = 0;
    while i < idl.accounts.len()
        invariant
            i <= idl.accounts.len(),
            r@.map_values(|c: ComponentPlan| c@) == component_specs(idl.accounts@.take(i as int), idl.types@),
        decreases idl.accounts.len() - i,
    {
        let ghost before = r@;
        let account = &idl.accounts[i];
        assert(idl.accounts@.take(i + 1).drop_last() =~= idl.accounts@.take(i as int));
        assert(idl.accounts@.take(i + 1).last() == idl.accounts@[i as int]);
        match find_defined_type(&idl.types, &account.name) {
            Some(k) => {
                let fields = plan_fields(&idl.types[k].ty.fields);
                r.push(ComponentPlan { name: copy_string(&account.name), fields });
                assert(r@.map_values(|c: ComponentPlan| c@) =~= before.map_values(|c: ComponentPlan| c@).push(
                    r@[r@.len() - 1]@,
                ));
            },
            None => {},
        }
        i = i + 1;
    }
    assert(idl.accounts@.take(idl.accounts.len() as int) =~= idl.accounts@);
    r
}

/// Everything that the generator emits for one instruction.
pub fn plan_instruction(instr: &IdlInstruction) -> (r: InstructionPlan)
    requires
        instruction_idents_valid(*instr),
    ensures
        r@ == instruction_spec(*instr),
{
    let mut flattened: Vec<&IdlInstructionAccount> = Vec::new();
    flatten_instruction_accounts(instr.accounts.as_slice(), &mut flattened);
    let ghost flat = flatten_items(instr.accounts@);
    assert(flattened@.map_values(|a: &IdlInstructionAccount| *a) =~= flat);
    let mut accounts: Vec<AccountMetaPlan> = Vec::new();
    let mut i: usize = 0;
    while i < flattened.len()
        invariant
            i <= flattened.len(),
            flattened@.map_values(|a: &IdlInstructionAccount| *a) == flat,
            accounts@.map_values(|a: AccountMetaPlan| a@) == flat.take(i as int).map_values(
                |a: IdlInstructionAccount| account_meta_spec(a),
            ),
        decreases flattened.len() - i,
    {
        let account = flattened[i];
        assert(*account == flat[i as int]);
        accounts.push(
            AccountMetaPlan {
                name: copy_string(&account.name),
                writable: account.writable,
                signer: account.signer,
            },
        );
        assert(flat.take(i + 1).map_values(|a: IdlInstructionAccount| account_meta_spec(a)) =~= flat.take(
            i as int,
        ).map_values(|a: IdlInstructionAccount| account_meta_spec(a)).push(account_meta_spec(flat[i as int])));
        assert(accounts@.map_values(|a: AccountMetaPlan| a@) =~= flat.take(i + 1).map_values(
            |a: IdlInstructionAccount| account_meta_spec(a),
        ));
        i = i + 1;
    }
    assert(flat.take(flattened@.len() as int) =~= flat);
    let r = InstructionPlan {
        component_name: pascal_case_ident(instr.name.as_str()),
        builder_name: copy_string(&instr.name),
        accounts_struct_name: accounts_struct_ident(instr.name.as_str()),
        fields: plan_fields(&instr.args),
        function_args: plan_function_args(&instr.args),
        accounts,
        discriminator: copy_bytes(&instr.discriminator),
        serializers: plan_serializers(&instr.args),
    };
    assert(r@ =~= instruction_spec(*instr));
    r
}

/// What the generator emits for an IDL: the program address and the key it
/// denotes, a component for each account that has a type of its name, and
/// the plan of each instruction in order. Every name that becomes an
/// identifier must be one; the generator stops on any other IDL.
pub fn generate_bevy_components(idl: &AnchorIdl) -> (r: GenerationPlan)
    requires
        idl_idents_valid(*idl),
    ensures
        r.program_address@ == idl.address@,
        r.program_id is Some <==> is_address_text(idl.address@),
        r.program_id matches Some(k) ==> big_endian_value(k.0@) == base58_value(idl.address@),
        r.components@.map_values(|c: ComponentPlan| c@) == component_specs(idl.accounts@, idl.types@),
        r.instructions@.map_values(|p: InstructionPlan| p@) == idl.instructions@.map_values(
            |instr: IdlInstruction| instruction_spec(instr),
        ),
{
    let program_id = decode_base58_address(idl.address.as_str());
    let components = plan_components(idl);
    let mut instructions: Vec<InstructionPlan> = Vec::new();
    let mut i: usize = 0;
    while i < idl.instructions.len()
        invariant
            i <= idl.instructions.len(),
            idl_idents_valid(*idl),
            instructions@.map_values(|p: InstructionPlan| p@) == idl.instructions@.take(i as int).map_values(
                |instr: IdlInstruction| instruction_spec(instr),
            ),
        decreases idl.instructions.len() - i,
    {
        assert(instruction_idents_valid(idl.instructions@[i as int]));
        let p = plan_instruction(&idl.instructions[i]);
        instructions.push(p);
        assert(idl.instructions@.take(i + 1).map_values(|instr: IdlInstruction| instruction_spec(instr))
            =~= idl.instructions@.take(i as int).map_values(|instr: IdlInstruction| instruction_spec(instr)).push(
            instruction_spec(idl.instructions@[i as int]),
        ));
        assert(instructions@.map_values(|p: InstructionPlan| p@) =~= idl.instructions@.take(i + 1).map_values(
            |instr: IdlInstruction| instruction_spec(instr),
        ));
        i = i + 1;
    }
    assert(idl.instructions@.take(idl.instructions.len() as int) =~= idl.instructions@);
    GenerationPlan { program_address: copy_string(&idl.address), program_id, components, instructions }
}

/// `type_index` finds the first type of the name: where it is not -1, the
/// type there has the name and no earlier type has it; where it is -1, no
/// type has it.
pub proof fn lemma_type_index(types: Seq<IdlDefinedType>, name: Seq<char>)
    ensures
        type_index(types, name) == -1 || 0 <= type_index(types, name) < types.len(),
        type_index(types, name) >= 0 ==> types[type_index(types, name)].name@ == name,
        type_index(types, name) >= 0 ==> forall|j: int|
            0 <= j < type_index(types, name) ==> (#[trigger] types[j]).name@ != name,
        type_index(types, name) == -1 ==> forall|j: int|
            0 <= j < types.len() ==> (#[trigger] types[j]).name@ != name,
{
    lemma_type_index_from(types, name, 0);
}

proof fn lemma_type_index_from(types: Seq<IdlDefinedType>, name: Seq<char>, start: int)
    requires
        0 <= start,
    ensures
        type_index_from(types, name, start) == -1 || start <= type_index_from(types, name, start)
            < types.len(),
        type_index_from(types, name, start) >= 0 ==> types[type_index_from(types, name, start)].name@
            == name,
        type_index_from(types, name, start) >= 0 ==> forall|j: int|
            start <= j < type_index_from(types, name, start) ==> (#[trigger] types[j]).name@ != name,
        type_index_from(types, name, start) == -1 ==> forall|j: int|
            start <= j < types.len() ==> (#[trigger] types[j]).name@ != name,
    decreases types.len() - start,
{
    if start < types.len() && types[start].name@ != name {
        lemma_type_index_from(types, name, start + 1);
    }
}

/// Every component is named after an account and has a type of that name;
/// there are never more components than accounts, and exactly as many where
/// every account has a type of its name.
pub proof fn lemma_components_cover(accounts: Seq<IdlAccount>, types: Seq<IdlDefinedType>)
    ensures
        component_specs(accounts, types).len() <= accounts.len(),
        (forall|i: int| 0 <= i < accounts.len() ==> type_index(types, (#[trigger] accounts[i]).name@) >= 0)
            ==> component_specs(accounts, types).len() == accounts.len(),
        forall|c: int|
            0 <= c < component_specs(accounts, types).len() ==> exists|i: int|
                0 <= i < accounts.len() && (#[trigger] component_specs(accounts, types)[c]).name
                    == accounts[i].name@ && type_index(types, accounts[i].name@) >= 0,
    decreases accounts.len(),
{
    if accounts.len() > 0 {
        let rest = accounts.drop_last();
        lemma_components_cover(rest, types);
        let comps = component_specs(accounts, types);
        let rest_comps = component_specs(rest, types);
        if forall|i: int| 0 <= i < accounts.len() ==> type_index(types, (#[trigger] accounts[i]).name@) >= 0 {
            assert forall|i: int| 0 <= i < rest.len() implies type_index(types, (#[trigger] rest[i]).name@)
                >= 0 by {
                assert(rest[i] == accounts[i]);
            }
            assert(type_index(types, accounts[accounts.len() - 1].name@) >= 0);
        }
        assert forall|c: int| 0 <= c < comps.len() implies exists|i: int|
            0 <= i < accounts.len() && (#[trigger] comps[c]).name == accounts[i].name@ && type_index(
                types,
                accounts[i].name@,
            ) >= 0 by {
            if c < rest_comps.len() {
                assert(comps[c] == rest_comps[c]);
                let i = choose|i: int|
                    0 <= i < rest.len() && rest_comps[c].name == rest[i].name@ && type_index(
                        types,
                        rest[i].name@,
                    ) >= 0;
                assert(rest[i] == accounts[i]);
            } else {
                assert(comps[c].name == accounts[accounts.len() - 1].name@);
            }
        }
    }
}

/// An instruction's plan keeps its arguments in step: one component field,
/// one builder argument and one serializer per IDL argument, under the
/// argument's name, and one account entry per account of the flattened
/// list, with its name and its writable and signer flags.
pub proof fn lemma_instruction_spec_in_step(instr: IdlInstruction)
    ensures
        instruction_spec(instr).fields.len() == instr.args@.len(),
        instruction_spec(instr).function_args.len() == instr.args@.len(),
        instruction_spec(instr).serializers.len() == instr.args@.len(),
        forall|i: int|
            0 <= i < instr.args@.len() ==> {
                &&& (#[trigger] instruction_spec(instr).fields[i]).name == instr.args@[i].name@
                &&& instruction_spec(instr).function_args[i].name == instr.args@[i].name@
                &&& instruction_spec(instr).serializers[i] == arg_serializer(instr.args@[i].ty@)
                &&& instruction_spec(instr).fields[i].ty == field_type(instr.args@[i].ty@)
                &&& instruction_spec(instr).function_args[i].ty == arg_type(instr.args@[i].ty@)
            },
        instruction_spec(instr).accounts.len() == flatten_items(instr.accounts@).len(),
        forall|i: int|
            0 <= i < flatten_items(instr.accounts@).len() ==> {
                &&& (#[trigger] instruction_spec(instr).accounts[i]).name == flatten_items(instr.accounts@)[i].name@
                &&& instruction_spec(instr).accounts[i].writable == flatten_items(instr.accounts@)[i].writable
                &&& instruction_spec(instr).accounts[i].signer == flatten_items(instr.accounts@)[i].signer
            },
{
}

/// Component fields keep the IDL fields in order, each under its own name
/// with the field type of its own IDL type.
pub proof fn lemma_component_fields(fields: Seq<IdlField>)
    ensures
        component_fields(fields).len() == fields.len(),
        forall|f: int|
            0 <= f < fields.len() ==> (#[trigger] component_fields(fields)[f]).name == fields[f].name@
                && component_fields(fields)[f].ty == field_type(fields[f].ty@),
{
}

/// Builder arguments keep the IDL arguments in order, each under its own
/// name with the builder type of its own IDL type.
pub proof fn lemma_builder_args(args: Seq<IdlField>)
    ensures
        builder_args(args).len() == args.len(),
        forall|a: int|
            0 <= a < args.len() ==> (#[trigger] builder_args(args)[a]).name == args[a].name@
                && builder_args(args)[a].ty == arg_type(args[a].ty@),
{
}

/// `k` is the first type (in IDL order) named `name`.
pub open spec fn is_first_type_named(types: Seq<IdlDefinedType>, name: Seq<char>, k: int) -> bool {
    &&& 0 <= k < types.len()
    &&& types[k].name@ == name
    &&& forall|j: int| 0 <= j < k ==> (#[trigger] types[j]).name@ != name
}

/// `component` is named after account `i` and has the fields of the first
/// type that bears that account's name.
pub open spec fn made_from_account(
    accounts: Seq<IdlAccount>,
    types: Seq<IdlDefinedType>,
    component: ComponentSpec,
    i: int,
) -> bool {
    &&& 0 <= i < accounts.len()
    &&& component.name == accounts[i].name@
    &&& exists|k: int|
        is_first_type_named(types, accounts[i].name@, k) && component.fields == component_fields(
            #[trigger] types[k].ty.fields@,
        )
}

/// A component takes the fields of its own account's type: component `c` is
/// named after some account, and its fields are those of the first type (in
/// IDL order) that bears that account's name, not those of any other type.
pub proof fn lemma_component_fields_from_own_type(
    accounts: Seq<IdlAccount>,
    types: Seq<IdlDefinedType>,
    c: int,
)
    requires
        0 <= c < component_specs(accounts, types).len(),
    ensures
        exists|i: int| made_from_account(accounts, types, component_specs(accounts, types)[c], i),
    decreases accounts.len(),
{
    let rest = accounts.drop_last();
    let comps = component_specs(accounts, types);
    let rest_comps = component_specs(rest, types);
    let last = accounts.len() - 1;
    lemma_type_index(types, accounts[last].name@);
    if c < rest_comps.len() {
        lemma_component_fields_from_own_type(rest, types, c);
        assert(comps[c] == rest_comps[c]);
        let i = choose|i: int| made_from_account(rest, types, rest_comps[c], i);
        assert(rest[i] == accounts[i]);
        let k = choose|k: int|
            is_first_type_named(types, rest[i].name@, k) && rest_comps[c].fields == component_fields(
                #[trigger] types[k].ty.fields@,
            );
        assert(is_first_type_named(types, accounts[i].name@, k));
        assert(made_from_account(accounts, types, comps[c], i));
    } else {
        let k = type_index(types, accounts[last].name@);
        assert(is_first_type_named(types, accounts[last].name@, k));
        assert(comps[c].fields == component_fields(types[k].ty.fields@));
        assert(made_from_account(accounts, types, comps[c], last));
    }
}

/// Whether an instruction's plan, and whether it is accepted, depend only on
/// names and flags: two instructions that agree on name, discriminator and
/// arguments, and whose flattened accounts agree on names and flags (their
/// fixed addresses may differ), are accepted alike and planned alike.
pub proof fn lemma_instruction_ignores_addresses(a: IdlInstruction, b: IdlInstruction)
    requires
        a.name@ == b.name@,
        a.discriminator@ == b.discriminator@,
        a.args@ == b.args@,
        flatten_items(a.accounts@).len() == flatten_items(b.accounts@).len(),
        forall|i: int|
            0 <= i < flatten_items(a.accounts@).len() ==> {
                &&& (#[trigger] flatten_items(a.accounts@)[i]).name@ == flatten_items(b.accounts@)[i].name@
                &&& flatten_items(a.accounts@)[i].writable == flatten_items(b.accounts@)[i].writable
                &&& flatten_items(a.accounts@)[i].signer == flatten_items(b.accounts@)[i].signer
            },
    ensures
        instruction_idents_valid(a) == instruction_idents_valid(b),
        instruction_spec(a) == instruction_spec(b),
{
    let fa = flatten_items(a.accounts@);
    let fb = flatten_items(b.accounts@);
    assert(fa.map_values(|x: IdlInstructionAccount| account_meta_spec(x)) =~= fb.map_values(
        |x: IdlInstructionAccount| account_meta_spec(x),
    ));
    if instruction_idents_valid(a) {
        assert forall|i: int| 0 <= i < fb.len() implies is_ident((#[trigger] fb[i]).name@) by {
            assert(is_ident(fa[i].name@));
        }
    }
    if instruction_idents_valid(b) {
        assert forall|i: int| 0 <= i < fa.len() implies is_ident((#[trigger] fa[i]).name@) by {
            assert(is_ident(fb[i].name@));
        }
    }
}

/// Whether an IDL is accepted depends only on the names it turns into
/// identifiers, not on its accounts' fixed addresses: two IDLs with the same
/// accounts and types whose instructions agree pairwise as in
/// `lemma_instruction_ignores_addresses` are accepted alike.
pub proof fn lemma_idl_acceptance_ignores_addresses(a: AnchorIdl, b: AnchorIdl)
    requires
        a.accounts@ == b.accounts@,
        a.types@ == b.types@,
        a.instructions@.len() == b.instructions@.len(),
        forall|n: int|
            0 <= n < a.instructions@.len() ==> {
                let x = #[trigger] a.instructions@[n];
                let y = b.instructions@[n];
                &&& x.name@ == y.name@
                &&& x.discriminator@ == y.discriminator@
                &&& x.args@ == y.args@
                &&& flatten_items(x.accounts@).len() == flatten_items(y.accounts@).len()
                &&& forall|i: int|
                    0 <= i < flatten_items(x.accounts@).len() ==> {
                        &&& (#[trigger] flatten_items(x.accounts@)[i]).name@ == flatten_items(
                            y.accounts@,
                        )[i].name@
                        &&& flatten_items(x.accounts@)[i].writable == flatten_items(y.accounts@)[i].writable
                        &&& flatten_items(x.accounts@)[i].signer == flatten_items(y.accounts@)[i].signer
                    }
            },
    ensures
        idl_idents_valid(a) == idl_idents_valid(b),
{
    assert forall|n: int| 0 <= n < a.instructions@.len() implies instruction_idents_valid(
        #[trigger] a.instructions@[n],
    ) == instruction_idents_valid(b.instructions@[n]) by {
        lemma_instruction_ignores_addresses(a.instructions@[n], b.instructions@[n]);
    }
    if idl_idents_valid(a) {
        assert forall|n: int| 0 <= n < b.instructions@.len() implies instruction_idents_valid(
            #[trigger] b.instructions@[n],
        ) by {
            assert(instruction_idents_valid(a.instructions@[n]) == instruction_idents_valid(b.instructions@[n]));
        }
    }
    if idl_idents_valid(b) {
        assert forall|n: int| 0 <= n < a.instructions@.len() implies instruction_idents_valid(
            #[trigger] a.instructions@[n],
        ) by {
            assert(instruction_idents_valid(a.instructions@[n]) == instruction_idents_valid(b.instructions@[n]));
        }
    }
}

} // verus!
