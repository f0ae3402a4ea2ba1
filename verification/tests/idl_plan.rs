use bevy_solana::builder::{build_instruction, build_program_instruction, AccountMeta};
use bevy_solana::encode::{ArgValue, BuildError};
use bevy_solana::idl::{
    flatten_instruction_accounts, AnchorIdl, IdlAccount, IdlDefinedType, IdlField, IdlInstruction,
    IdlInstructionAccount, IdlInstructionAccountItem, IdlInstructionAccountsGroup, IdlType,
};
use bevy_solana::plan::{generate_bevy_components, plan_components, plan_instruction, try_generate_bevy_components};
use bevy_solana::pubkey::WrappedPubkey;
use bevy_solana::types::{ArgSerializer, GeneratedType};

fn account(name: &str, writable: bool, signer: bool) -> IdlInstructionAccountItem {
    IdlInstructionAccountItem::Account(IdlInstructionAccount {
        name: name.to_string(),
        writable,
        signer,
        address: None,
    })
}

fn group(name: &str, accounts: Vec<IdlInstructionAccountItem>) -> IdlInstructionAccountItem {
    IdlInstructionAccountItem::Group(IdlInstructionAccountsGroup { name: name.to_string(), accounts })
}

fn field(name: &str, ty: &str) -> IdlField {
    IdlField { name: name.to_string(), ty: ty.to_string() }
}

fn names(flat: &[&IdlInstructionAccount]) -> Vec<String> {
    flat.iter().map(|a| a.name.clone()).collect()
}

#[test]
fn flatten_keeps_plain_lists() {
    let items = vec![account("player", true, true), account("system_program", false, false)];
    let mut flat = Vec::new();
    flatten_instruction_accounts(&items, &mut flat);
    assert_eq!(names(&flat), vec!["player", "system_program"]);
}

#[test]
fn flatten_descends_into_groups_in_order() {
    let items = vec![
        account("a", false, false),
        group("g", vec![account("b", true, false), group("h", vec![account("c", false, true)])]),
        account("d", true, true),
    ];
    let mut flat = Vec::new();
    flatten_instruction_accounts(&items, &mut flat);
    assert_eq!(names(&flat), vec!["a", "b", "c", "d"]);
    assert!(flat[1].writable && !flat[1].signer);
    assert!(!flat[2].writable && flat[2].signer);
}

#[test]
fn flatten_appends_to_what_is_there() {
    let first = vec![account("a", false, false)];
    let second = vec![group("g", vec![]), account("b", false, false)];
    let mut flat = Vec::new();
    flatten_instruction_accounts(&first, &mut flat);
    flatten_instruction_accounts(&second, &mut flat);
    assert_eq!(names(&flat), vec!["a", "b"]);
}

#[test]
fn nested_group_is_transparent() {
    let inner = vec![account("x", true, false), account("y", false, false)];
    let wrapped = vec![group("outer", vec![group("inner", inner.clone_items())])];
    let mut a = Vec::new();
    let mut b = Vec::new();
    flatten_instruction_accounts(&inner, &mut a);
    flatten_instruction_accounts(&wrapped, &mut b);
    assert_eq!(names(&a), names(&b));
}

trait CloneItems {
    fn clone_items(&self) -> Vec<IdlInstructionAccountItem>;
}

impl CloneItems for Vec<IdlInstructionAccountItem> {
    fn clone_items(&self) -> Vec<IdlInstructionAccountItem> {
        self.iter()
            .map(|item| match item {
                IdlInstructionAccountItem::Account(a) => account(&a.name, a.writable, a.signer),
                IdlInstructionAccountItem::Group(g) => group(&g.name, g.accounts.clone_items()),
            })
            .collect()
    }
}

fn sample_idl() -> AnchorIdl {
    AnchorIdl {
        address: "3k9JM1TwoXjxuiD6VwqBsCxPFKHcLEqF1uMHzqnV9FUm".to_string(),
        accounts: vec![
            IdlAccount { name: "Player".to_string() },
            IdlAccount { name: "Orphan".to_string() },
        ],
        instructions: vec![
            IdlInstruction {
                name: "initialize".to_string(),
                discriminator: vec![175, 175, 109, 31, 13, 152, 155, 237],
                accounts: vec![account("player", true, true), account("system_program", false, false)],
                args: vec![],
            },
            IdlInstruction {
                name: "setName".to_string(),
                discriminator: vec![1, 2, 3, 4, 5, 6, 7, 8],
                accounts: vec![group("auth", vec![account("owner", false, true)]), account("player", true, false)],
                args: vec![field("name", "string"), field("score", "u64"), field("key", "publicKey")],
            },
        ],
        types: vec![
            IdlDefinedType {
                name: "Player".to_string(),
                ty: IdlType {
                    kind: "struct".to_string(),
                    fields: vec![field("score", "u64"), field("owner", "publicKey"), field("level", "u8")],
                },
            },
            IdlDefinedType {
                name: "Player".to_string(),
                ty: IdlType { kind: "struct".to_string(), fields: vec![] },
            },
        ],
    }
}

#[test]
fn components_exist_only_for_accounts_with_types() {
    let idl = sample_idl();
    let components = plan_components(&idl);
    assert_eq!(components.len(), 1);
    assert_eq!(components[0].name, "Player");
    // The first type of the name gives the fields; unknown types become u64.
    let fields: Vec<(String, GeneratedType)> =
        components[0].fields.iter().map(|f| (f.name.clone(), f.ty)).collect();
    assert_eq!(
        fields,
        vec![
            ("score".to_string(), GeneratedType::U64),
            ("owner".to_string(), GeneratedType::WrappedPubkey),
            ("level".to_string(), GeneratedType::U64),
        ]
    );
}

#[test]
fn instruction_plan_names_and_types() {
    let idl = sample_idl();
    let plan = plan_instruction(&idl.instructions[1]);
    assert_eq!(plan.component_name, "SetName");
    assert_eq!(plan.builder_name, "setName");
    assert_eq!(plan.accounts_struct_name, "SetNameAccounts");
    let fields: Vec<GeneratedType> = plan.fields.iter().map(|f| f.ty).collect();
    assert_eq!(fields, vec![GeneratedType::String, GeneratedType::U64, GeneratedType::WrappedPubkey]);
    let args: Vec<GeneratedType> = plan.function_args.iter().map(|f| f.ty).collect();
    assert_eq!(args, vec![GeneratedType::String, GeneratedType::U64, GeneratedType::SolanaPubkey]);
    assert_eq!(
        plan.serializers,
        vec![ArgSerializer::LengthPrefixedString, ArgSerializer::U64Le, ArgSerializer::PubkeyBytes]
    );
    let accounts: Vec<(String, bool, bool)> =
        plan.accounts.iter().map(|a| (a.name.clone(), a.writable, a.signer)).collect();
    assert_eq!(
        accounts,
        vec![("owner".to_string(), false, true), ("player".to_string(), true, false)]
    );
    assert_eq!(plan.discriminator, vec![1, 2, 3, 4, 5, 6, 7, 8]);
}

#[test]
fn generation_plan_covers_the_idl() {
    let idl = sample_idl();
    let plan = generate_bevy_components(&idl);
    assert_eq!(plan.program_address, idl.address);
    let expected = [
        40u8, 196, 187, 127, 56, 38, 71, 66, 194, 27, 55, 100, 154, 51, 182, 84, 166, 4, 209, 58, 34, 234,
        196, 240, 5, 91, 6, 33, 40, 46, 148, 226,
    ];
    assert_eq!(plan.program_id, Some(WrappedPubkey::from_bytes(expected)));
    assert_eq!(plan.components.len(), 1);
    assert_eq!(plan.instructions.len(), 2);
    assert_eq!(plan.instructions[0].component_name, "Initialize");
    assert_eq!(plan.instructions[0].accounts_struct_name, "InitializeAccounts");
}

#[test]
fn invalid_program_address_has_no_id() {
    let mut idl = sample_idl();
    idl.address = "not-base58-0OIl".to_string();
    assert_eq!(generate_bevy_components(&idl).program_id, None);
    idl.address = "1".repeat(45);
    assert_eq!(generate_bevy_components(&idl).program_id, None);
    idl.address = "1".repeat(31);
    assert_eq!(generate_bevy_components(&idl).program_id, None);
    idl.address = "1".repeat(33);
    assert_eq!(generate_bevy_components(&idl).program_id, None);
    idl.address = "11111111111111111111111111111111".to_string();
    assert_eq!(generate_bevy_components(&idl).program_id, Some(WrappedPubkey::from_bytes([0; 32])));
}

#[test]
fn builder_puts_accounts_in_order_with_their_flags() {
    let idl = sample_idl();
    let plan = plan_instruction(&idl.instructions[0]);
    let program = WrappedPubkey::from_bytes([7; 32]);
    let player = WrappedPubkey::from_bytes([1; 32]);
    let system = WrappedPubkey::from_bytes([0; 32]);
    let ix = build_instruction(&plan, program, &[player, system], &[]).unwrap();
    assert_eq!(ix.program_id, program);
    assert_eq!(
        ix.accounts,
        vec![
            AccountMeta { pubkey: player, is_signer: true, is_writable: true },
            AccountMeta { pubkey: system, is_signer: false, is_writable: false },
        ]
    );
    assert_eq!(ix.data, vec![175, 175, 109, 31, 13, 152, 155, 237]);
}

#[test]
fn builder_encodes_arguments() {
    let idl = sample_idl();
    let plan = plan_instruction(&idl.instructions[1]);
    let key = WrappedPubkey::from_bytes([9; 32]);
    let owner = WrappedPubkey::from_bytes([2; 32]);
    let player = WrappedPubkey::from_bytes([3; 32]);
    let args = [ArgValue::String("ab".to_string()), ArgValue::U64(1), ArgValue::Pubkey(key)];
    let ix = build_instruction(&plan, WrappedPubkey::default(), &[owner, player], &args).unwrap();
    let mut expected = vec![1, 2, 3, 4, 5, 6, 7, 8, 2, 0, 0, 0, b'a', b'b', 1, 0, 0, 0, 0, 0, 0, 0];
    expected.extend_from_slice(&[9; 32]);
    assert_eq!(ix.data, expected);
    assert_eq!(ix.accounts[0], AccountMeta { pubkey: owner, is_signer: true, is_writable: false });
}

#[test]
fn builder_refuses_wrong_account_count_first() {
    let idl = sample_idl();
    let plan = plan_instruction(&idl.instructions[1]);
    let r = build_instruction(&plan, WrappedPubkey::default(), &[], &[ArgValue::Bool(true)]);
    assert_eq!(r.err(), Some(BuildError::AccountCount { expected: 2, given: 0 }));
}

#[test]
fn builder_refuses_wrong_arguments() {
    let idl = sample_idl();
    let plan = plan_instruction(&idl.instructions[1]);
    let k = WrappedPubkey::default();
    let args = [ArgValue::String("ab".to_string()), ArgValue::I64(1), ArgValue::Pubkey(k)];
    let r = build_instruction(&plan, k, &[k, k], &args);
    assert_eq!(r.err(), Some(BuildError::ArgumentType { index: 1 }));
}

#[test]
fn idl_with_a_name_that_is_no_identifier_is_refused() {
    assert!(try_generate_bevy_components(&sample_idl()).is_some());
    let mut idl = sample_idl();
    idl.accounts.push(IdlAccount { name: "bad name".to_string() });
    assert!(try_generate_bevy_components(&idl).is_none());
    let mut idl = sample_idl();
    idl.instructions[1].args.push(field("2x", "u64"));
    assert!(try_generate_bevy_components(&idl).is_none());
    let mut idl = sample_idl();
    idl.instructions[0].accounts.push(group("g", vec![account("a-b", false, false)]));
    assert!(try_generate_bevy_components(&idl).is_none());
    let mut idl = sample_idl();
    idl.instructions[0].name = String::new();
    assert!(try_generate_bevy_components(&idl).is_none());
}

#[test]
fn field_names_of_unused_types_are_not_checked() {
    let mut idl = sample_idl();
    idl.types.push(IdlDefinedType {
        name: "Unused".to_string(),
        ty: IdlType { kind: "struct".to_string(), fields: vec![field("not an ident", "u64")] },
    });
    assert!(try_generate_bevy_components(&idl).is_some());
}

#[test]
fn program_builder_uses_the_idl_address() {
    let plan = generate_bevy_components(&sample_idl());
    let player = WrappedPubkey::from_bytes([1; 32]);
    let system = WrappedPubkey::from_bytes([0; 32]);
    let ix = build_program_instruction(&plan, 0, &[player, system], &[]).unwrap();
    assert_eq!(Some(ix.program_id), plan.program_id);
}

#[test]
fn program_builder_refuses_an_invalid_address() {
    let mut idl = sample_idl();
    idl.address = "0OIl".to_string();
    let plan = generate_bevy_components(&idl);
    let k = WrappedPubkey::default();
    let r = build_program_instruction(&plan, 0, &[k, k], &[]);
    assert_eq!(r.err(), Some(BuildError::InvalidProgramAddress));
}
