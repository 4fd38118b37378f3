use dharitri_sim::arena::{Arena, CALL_VALUE_MOAX};
use dharitri_sim::big_nat::BigNat;
use dharitri_sim::call_value::CallValueWrapper;
use dharitri_sim::dct::DctInstanceMetadata;
use dharitri_sim::dct_token_data::{
    DctLocalRole, DctLocalRoleFlags, ROLE_BURN, ROLE_MINT, ROLE_NFT_ADD_QUANTITY, ROLE_NFT_BURN,
    ROLE_NFT_CREATE, ROLE_NONE,
};
use dharitri_sim::debug_api::DebugApi;
use dharitri_sim::executor::{
    dispatch, execute, execute_sc_call, finish_call, run_transaction, ContractMap, NoContracts,
    TxTransfer, TxValidatorReward, MAX_CALL_DEPTH,
};
use dharitri_sim::managed::{DctTokenType, ManagedAddress, TokenIdentifier};
use dharitri_sim::tx::{TxError, TxInput, TxInputDct, TxResult, TxStatus};
use dharitri_sim::world::{AccountData, BlockInfo, BlockchainMock};

fn address(b: u8) -> Vec<u8> {
    vec![b; 32]
}

fn big(x: u64) -> BigNat {
    BigNat::from_u64(x)
}

fn token() -> Vec<u8> {
    b"TOKEN-abcdef".to_vec()
}

const S: u8 = 1;
const C: u8 = 2;
const X: u8 = 3;
const Y: u8 = 4;
const D: u8 = 5;

fn transfer(identifier: &[u8], nonce: u64, value: u64) -> TxInputDct {
    TxInputDct { token_identifier: identifier.to_vec(), nonce, value: big(value) }
}

fn call(from: u8, to: u8, moax: u64, dct: Vec<TxInputDct>, func: &[u8]) -> TxInput {
    TxInput {
        from: address(from),
        to: address(to),
        moax_value: big(moax),
        dct_values: dct,
        func_name: func.to_vec(),
        args: vec![b"arg".to_vec()],
        gas_limit: 5000,
        gas_price: 2,
        tx_hash: vec![9u8; 32],
    }
}

fn contract_account(code: &[u8]) -> AccountData {
    let mut account = AccountData::default();
    account.contract_path = Some(code.to_vec());
    account.contract_owner = Some(address(S));
    account
}

/// The world of the scenarios: S holds 1000, C and D are contracts.
fn world() -> BlockchainMock {
    let mut world = BlockchainMock::new();
    world.credit_native(&address(S), &big(1000));
    world.add_account(&address(C), contract_account(b"pay-contract"));
    world.add_account(&address(D), contract_account(b"pay-contract"));
    world
}

/// Code with six functions: `pay` gives up, `keep` returns the native
/// amount it got, `forward` sends half of what it got on to D's `keep`,
/// `relay` calls D's `pay` and gives up if that call fails, `recover`
/// calls D's `pay` and goes on, and `deep` calls itself.
struct PayContract;

impl ContractMap for PayContract {
    fn call_contract(
        &self,
        code: &Vec<u8>,
        func_name: &Vec<u8>,
        api: &mut DebugApi,
    ) -> Option<Result<Vec<Vec<u8>>, TxError>> {
        if code.as_slice() != b"pay-contract" {
            return None;
        }
        match func_name.as_slice() {
            b"pay" => Some(Err(TxError::user_error(b"payment refused".to_vec()))),
            b"keep" => {
                let value = api.call_value.moax_value(&mut api.arena);
                let bytes = value.to_big_nat(&api.arena).to_bytes_be();
                api.world.storage_store(&api.input.to, &b"kept".to_vec(), bytes.clone());
                Some(Ok(vec![bytes, api.get_caller_legacy()]))
            }
            b"forward" => {
                let got = api.call_value.moax_value(&mut api.arena).to_big_nat(&api.arena);
                let half = big(got.to_u64().unwrap() / 2);
                let allocated = api.arena.allocate();
                let nested = api.execute_on_dest_context(
                    self,
                    &address(D),
                    &half,
                    Vec::new(),
                    &b"keep".to_vec(),
                    Vec::new(),
                );
                assert!(api.arena.is_valid(allocated));
                assert_eq!(api.arena.depth(), 1);
                Some(Ok(nested.result_values))
            }
            b"relay" => {
                let nested = api.execute_on_dest_context(
                    self,
                    &address(D),
                    &big(10),
                    Vec::new(),
                    &b"pay".to_vec(),
                    Vec::new(),
                );
                if nested.is_success() {
                    Some(Ok(Vec::new()))
                } else {
                    Some(Err(TxError::new(nested.result_status, nested.result_message)))
                }
            }
            b"recover" => {
                let nested = api.execute_on_dest_context(
                    self,
                    &address(D),
                    &big(10),
                    Vec::new(),
                    &b"pay".to_vec(),
                    Vec::new(),
                );
                Some(Ok(vec![nested.result_message]))
            }
            b"deep" => {
                let nested = api.execute_on_dest_context(
                    self,
                    &address(C),
                    &big(0),
                    Vec::new(),
                    &b"deep".to_vec(),
                    Vec::new(),
                );
                if nested.is_success() {
                    Some(Ok(nested.result_values))
                } else {
                    Some(Ok(vec![nested.result_message, vec![api.arena.depth() as u8]]))
                }
            }
            _ => None,
        }
    }
}

fn balance(world: &BlockchainMock, who: u8) -> u64 {
    world.get_moax_balance(&address(who)).to_u64().unwrap()
}

fn tokens(world: &BlockchainMock, who: u8, nonce: u64) -> u64 {
    world.get_dct_balance(&address(who), &token(), nonce).to_u64().unwrap()
}

#[test]
fn a_call_that_aborts_leaves_only_the_nonce() {
    let (result, after) = run_transaction(&PayContract, call(S, C, 100, Vec::new(), b"pay"), world());
    assert_eq!(balance(&after, S), 1000);
    assert_eq!(balance(&after, C), 0);
    assert_eq!(after.get_nonce(&address(S)), 1);
    assert_eq!(result.result_status, TxStatus::UserError);
    assert!(!result.is_success());
    assert_eq!(result.result_message, b"payment refused".to_vec());
    assert!(result.result_values.is_empty());
    assert_eq!(result.gas_used, 0);
}

#[test]
fn a_call_that_returns_keeps_what_it_did() {
    let (result, after) = run_transaction(&PayContract, call(S, C, 100, Vec::new(), b"keep"), world());
    assert_eq!(result.result_status, TxStatus::Success);
    assert!(result.is_success());
    assert_eq!(result.result_values, vec![vec![100u8], address(S)]);
    assert!(result.result_message.is_empty());
    assert_eq!(balance(&after, S), 900);
    assert_eq!(balance(&after, C), 100);
    assert_eq!(after.get_nonce(&address(S)), 1);
    assert_eq!(after.get_nonce(&address(C)), 0);
    assert_eq!(after.storage_load(&address(C), &b"kept".to_vec()), vec![100u8]);
}

#[test]
fn an_unknown_function_fails_and_rolls_back() {
    let (result, after) =
        run_transaction(&PayContract, call(S, C, 100, Vec::new(), b"missing"), world());
    assert_eq!(result.result_status, TxStatus::FunctionNotFound);
    assert_eq!(result.result_message, b"invalid function (not found)".to_vec());
    assert_eq!(balance(&after, S), 1000);
    assert_eq!(balance(&after, C), 0);
    assert_eq!(after.get_nonce(&address(S)), 1);
    let (none, same) = run_transaction(&NoContracts, call(S, C, 100, Vec::new(), b"keep"), world());
    assert_eq!(none.result_status, TxStatus::FunctionNotFound);
    assert_eq!(balance(&same, S), 1000);
}

#[test]
fn a_malformed_call_takes_no_nonce() {
    let mut input = call(S, C, 100, Vec::new(), b"keep");
    input.from = vec![S; 31];
    assert!(!input.is_well_formed());
    let (result, after) = run_transaction(&PayContract, input, world());
    assert_eq!(result.result_status, TxStatus::MalformedInput);
    assert_eq!(result.result_message, b"malformed transaction input".to_vec());
    assert_eq!(after.get_nonce(&address(S)), 0);
    assert_eq!(balance(&after, S), 1000);
    assert!(!after.account_exists(&vec![S; 31]));

    let mut input = call(S, C, 100, Vec::new(), b"keep");
    input.to = Vec::new();
    let (result, after) = run_transaction(&PayContract, input, world());
    assert_eq!(result.result_status, TxStatus::MalformedInput);
    assert_eq!(after.get_nonce(&address(S)), 0);
    assert!(call(S, C, 100, Vec::new(), b"keep").is_well_formed());
}

#[test]
fn a_call_with_two_kinds_of_payment_is_refused_before_code_runs() {
    let mut start = world();
    start.credit_dct(&address(S), &token(), 0, &big(50), DctInstanceMetadata::empty());
    let input = call(S, C, 100, vec![transfer(b"TOKEN-abcdef", 0, 5)], b"keep");
    let (result, after) = run_transaction(&PayContract, input, start);
    assert_eq!(result.result_status, TxStatus::PaymentConflict);
    assert_eq!(result.result_message, b"call carries both a native amount and tokens".to_vec());
    assert_eq!(balance(&after, S), 1000);
    assert_eq!(tokens(&after, S, 0), 50);
    assert_eq!(balance(&after, C), 0);
    assert_eq!(tokens(&after, C, 0), 0);
    assert_eq!(after.storage_load(&address(C), &b"kept".to_vec()), Vec::<u8>::new());
    assert_eq!(after.get_nonce(&address(S)), 1);
}

#[test]
fn insufficient_funds_fail_and_take_the_nonce() {
    let (result, after) = run_transaction(&PayContract, call(S, X, 1001, Vec::new(), b""), world());
    assert_eq!(result.result_status, TxStatus::InsufficientFunds);
    assert!(result.result_message.is_empty());
    assert_eq!(balance(&after, S), 1000);
    assert_eq!(balance(&after, X), 0);
    assert_eq!(after.get_nonce(&address(S)), 1);
}

#[test]
fn insufficient_token_funds_roll_back_the_transfers_before() {
    let mut start = world();
    start.credit_dct(&address(S), &token(), 0, &big(50), DctInstanceMetadata::empty());
    let input = call(
        S,
        X,
        0,
        vec![transfer(b"TOKEN-abcdef", 0, 30), transfer(b"TOKEN-abcdef", 0, 30)],
        b"",
    );
    let (result, after) = run_transaction(&PayContract, input, start);
    assert_eq!(result.result_status, TxStatus::InsufficientTokenFunds);
    assert_eq!(tokens(&after, S, 0), 50);
    assert_eq!(tokens(&after, X, 0), 0);
    assert_eq!(after.get_nonce(&address(S)), 1);
}

#[test]
fn the_nonce_counts_every_call_of_the_sender() {
    let mut state = world();
    state.credit_native(&address(X), &big(10));
    let calls = vec![
        call(S, C, 100, Vec::new(), b"keep"),
        call(S, C, 100, Vec::new(), b"pay"),
        call(X, S, 5, Vec::new(), b""),
        call(S, C, 5000, Vec::new(), b"keep"),
        call(S, C, 0, Vec::new(), b"missing"),
        call(X, S, 50, Vec::new(), b""),
        call(S, X, 1, vec![transfer(b"TOKEN-abcdef", 0, 1)], b""),
        call(S, X, 7, Vec::new(), b""),
    ];
    let mut statuses = Vec::new();
    for input in calls {
        let (result, next) = run_transaction(&PayContract, input, state);
        statuses.push(result.result_status);
        state = next;
    }
    assert_eq!(
        statuses,
        vec![
            TxStatus::Success,
            TxStatus::UserError,
            TxStatus::Success,
            TxStatus::InsufficientFunds,
            TxStatus::FunctionNotFound,
            TxStatus::InsufficientFunds,
            TxStatus::PaymentConflict,
            TxStatus::Success,
        ]
    );
    assert_eq!(state.get_nonce(&address(S)), 6);
    assert_eq!(state.get_nonce(&address(X)), 2);
    assert_eq!(state.get_nonce(&address(C)), 0);
    assert_eq!(balance(&state, S), 1000 - 100 + 5 - 7);
    assert_eq!(balance(&state, X), 10 - 5 + 7);
    assert_eq!(balance(&state, C), 100);
}

#[test]
fn a_plain_transfer_moves_the_payment() {
    let mut start = world();
    start.credit_dct(&address(S), &token(), 0, &big(50), DctInstanceMetadata::empty());
    let input = call(S, X, 0, vec![transfer(b"TOKEN-abcdef", 0, 20)], b"");
    let (result, after) = run_transaction(&NoContracts, input, start);
    assert_eq!(result.result_status, TxStatus::Success);
    assert!(result.result_values.is_empty());
    assert_eq!(tokens(&after, S, 0), 30);
    assert_eq!(tokens(&after, X, 0), 20);
    assert_eq!(balance(&after, S), 1000);

    // a function name is of no account where the recipient has no code
    let (result, after) = run_transaction(&PayContract, call(S, X, 10, Vec::new(), b"pay"), after);
    assert_eq!(result.result_status, TxStatus::Success);
    assert_eq!(balance(&after, X), 10);
    // and without a function name the code of the recipient does not run
    let (result, after) = run_transaction(&PayContract, call(S, C, 10, Vec::new(), b""), after);
    assert_eq!(result.result_status, TxStatus::Success);
    assert_eq!(balance(&after, C), 10);
    assert_eq!(balance(&after, S), 980);
    assert_eq!(after.get_nonce(&address(S)), 3);
    // a sender can pay itself
    let (result, after) = run_transaction(&PayContract, call(S, S, 980, Vec::new(), b""), after);
    assert_eq!(result.result_status, TxStatus::Success);
    assert_eq!(balance(&after, S), 980);
}

#[test]
fn minted_metadata_travel_with_the_token() {
    let mut state = BlockchainMock::new();
    let minted = DctInstanceMetadata::new(
        Some(address(X)),
        750,
        Some(b"content-hash".to_vec()),
        vec![b"uri".to_vec()],
        b"attrs".to_vec(),
    )
    .unwrap();
    state.credit_dct(&address(X), &token(), 1, &big(5), minted);
    let result = state.denali_transfer(&TxTransfer {
        from: address(X),
        to: address(Y),
        moax_value: big(0),
        dct_value: vec![transfer(b"TOKEN-abcdef", 1, 2)],
        gas_limit: 100,
        gas_price: 1,
    });
    assert_eq!(result.result_status, TxStatus::Success);
    assert_eq!(tokens(&state, X, 1), 3);
    assert_eq!(tokens(&state, Y, 1), 2);
    assert_eq!(state.get_nonce(&address(X)), 1);

    for who in [X, Y] {
        let input = call(S, C, 0, Vec::new(), b"query");
        let mut arena = Arena::new();
        arena.push_frame();
        let mut api = DebugApi {
            world: state,
            call_value: CallValueWrapper::new(&input).unwrap(),
            input,
            arena,
        };
        let owner = ManagedAddress::from_address(&mut api.arena, &address(who));
        let token_id = TokenIdentifier::from_dct_bytes(&mut api.arena, b"TOKEN-abcdef");
        let data = api.get_dct_token_data(&owner, &token_id, 1);
        assert_eq!(data.token_type, DctTokenType::NonFungible);
        assert!(!data.frozen);
        assert_eq!(data.royalties.to_big_nat(&api.arena).to_u64(), Some(750));
        assert_eq!(data.creator.to_address(&api.arena), address(X));
        assert_eq!(data.hash.to_vec(&api.arena), b"content-hash".to_vec());
        assert_eq!(data.name.to_vec(&api.arena), token());
        assert_eq!(data.attributes.to_vec(&api.arena), b"attrs".to_vec());
        let expected = if who == X { 3 } else { 2 };
        assert_eq!(data.amount.to_big_nat(&api.arena).to_u64(), Some(expected));
        let uris = api.arena.read_handle_vec(data.uris.handle).clone();
        assert_eq!(uris.len(), 1);
        assert_eq!(api.arena.read_buffer(uris[0]), &b"uri".to_vec());
        // creator, list, one uri, amount, hash, name, attributes, royalties
        assert_eq!(
            (data.creator.handle, data.uris.handle, uris[0], data.amount.handle),
            (-198, -197, -196, -195)
        );
        assert_eq!(
            (data.hash.handle, data.name.handle, data.attributes.handle, data.royalties.handle),
            (-194, -193, -192, -191)
        );
        state = api.world;
    }

    // a later mint to Y with other metadata changes Y's balance only
    let other = DctInstanceMetadata::new(Some(address(Y)), 1, None, Vec::new(), Vec::new()).unwrap();
    state.credit_dct(&address(Y), &token(), 1, &big(10), other);
    let account = state.get_account(&address(Y));
    let instance = account.dct.get_by_identifier(&token()).unwrap().instances.get(&1).unwrap();
    assert_eq!(instance.balance.to_u64(), Some(12));
    assert_eq!(instance.metadata.royalties(), 750);
    assert_eq!(instance.metadata.creator(), &Some(address(X)));
    assert_eq!(instance.metadata.hash(), &Some(b"content-hash".to_vec()));
}

#[test]
fn token_data_of_what_is_not_there_are_empty() {
    let mut state = BlockchainMock::new();
    state.credit_dct(&address(X), &token(), 1, &big(5), DctInstanceMetadata::empty());
    let input = call(S, C, 0, Vec::new(), b"query");
    let mut arena = Arena::new();
    arena.push_frame();
    let mut api =
        DebugApi { world: state, call_value: CallValueWrapper::new(&input).unwrap(), input, arena };
    let owner = ManagedAddress::from_address(&mut api.arena, &address(X));
    let known = TokenIdentifier::from_dct_bytes(&mut api.arena, b"TOKEN-abcdef");
    let unknown = TokenIdentifier::from_dct_bytes(&mut api.arena, b"OTHER-123456");

    let missing_nonce = api.get_dct_token_data(&owner, &known, 2);
    assert_eq!(missing_nonce.token_type, DctTokenType::NonFungible);
    assert_eq!(missing_nonce.amount.handle, -197);
    assert_eq!(missing_nonce.uris.handle, -191);
    assert_eq!(missing_nonce.amount.to_big_nat(&api.arena).to_u64(), Some(0));
    assert_eq!(missing_nonce.royalties.to_big_nat(&api.arena).to_u64(), Some(0));
    assert_eq!(missing_nonce.creator.to_address(&api.arena), address(0));
    assert!(missing_nonce.name.to_vec(&api.arena).is_empty());
    assert!(api.arena.read_handle_vec(missing_nonce.uris.handle).is_empty());

    let missing_zero = api.get_dct_token_data(&owner, &known, 0);
    assert_eq!(missing_zero.token_type, DctTokenType::Fungible);

    let missing_token = api.get_dct_token_data(&owner, &unknown, 2);
    assert_eq!(missing_token.token_type, DctTokenType::Fungible);
    assert!(!missing_token.frozen);

    // an instance without creator or hash
    let there = api.get_dct_token_data(&owner, &known, 1);
    assert_eq!(there.amount.to_big_nat(&api.arena).to_u64(), Some(5));
    assert_eq!(there.creator.to_address(&api.arena), address(0));
    assert!(there.hash.to_vec(&api.arena).is_empty());
    assert!(api.arena.read_handle_vec(there.uris.handle).is_empty());
}

#[test]
fn a_contract_can_ask_about_itself_and_the_blocks() {
    let mut state = world();
    state.credit_native(&address(C), &big(55));
    state.credit_dct(&address(C), &token(), 4, &big(6), DctInstanceMetadata::empty());
    state.current_block_info = BlockInfo {
        block_timestamp: 11,
        block_nonce: 12,
        block_round: 13,
        block_epoch: 14,
        block_random_seed: vec![1u8; 48],
    };
    state.previous_block_info = BlockInfo {
        block_timestamp: 1,
        block_nonce: 2,
        block_round: 3,
        block_epoch: 4,
        block_random_seed: vec![2u8; 48],
    };
    let input = call(S, C, 0, Vec::new(), b"query");
    let mut arena = Arena::new();
    arena.push_frame();
    let mut api =
        DebugApi { world: state, call_value: CallValueWrapper::new(&input).unwrap(), input, arena };
    assert_eq!(api.get_caller_legacy(), address(S));
    assert_eq!(api.get_sc_address_legacy(), address(C));
    assert!(api.has_owner_address());
    assert_eq!(api.get_owner_address_legacy(), address(S));
    assert_eq!(api.get_tx_hash_legacy(), vec![9u8; 32]);
    assert_eq!(api.get_gas_left(), 5000);
    assert_eq!(
        (
            api.get_block_timestamp(),
            api.get_block_nonce(),
            api.get_block_round(),
            api.get_block_epoch()
        ),
        (11, 12, 13, 14)
    );
    assert_eq!(
        (
            api.get_prev_block_timestamp(),
            api.get_prev_block_nonce(),
            api.get_prev_block_round(),
            api.get_prev_block_epoch()
        ),
        (1, 2, 3, 4)
    );
    assert_eq!(api.get_block_random_seed_legacy(), vec![1u8; 48]);
    assert_eq!(api.get_prev_block_random_seed_legacy(), vec![2u8; 48]);

    api.load_balance_legacy(CALL_VALUE_MOAX, &address(C));
    assert_eq!(api.arena.read_big_int(CALL_VALUE_MOAX).to_u64(), Some(55));

    let own = ManagedAddress::from_address(&mut api.arena, &address(C));
    let known = TokenIdentifier::from_dct_bytes(&mut api.arena, b"TOKEN-abcdef");
    let unknown = TokenIdentifier::from_dct_bytes(&mut api.arena, b"OTHER-123456");
    let dest = api.arena.allocate();
    api.load_dct_balance(own.handle, known.handle, 4, dest);
    assert_eq!(api.arena.read_big_int(dest).to_u64(), Some(6));
    api.load_dct_balance(own.handle, known.handle, 5, dest);
    assert_eq!(api.arena.read_big_int(dest).to_u64(), Some(0));
    api.load_dct_balance(own.handle, unknown.handle, 4, dest);
    assert_eq!(api.arena.read_big_int(dest).to_u64(), Some(0));
    assert_eq!(api.get_current_dct_nft_nonce(own.handle, known.handle), 4);
    assert_eq!(api.get_current_dct_nft_nonce(own.handle, unknown.handle), 0);
}

#[test]
fn roles_are_read_as_a_set_of_bits() {
    assert_eq!(DctLocalRole::from_name(b"DCTRoleLocalMint"), DctLocalRole::Mint);
    assert_eq!(DctLocalRole::from_name(b"DCTRoleLocalBurn"), DctLocalRole::Burn);
    assert_eq!(DctLocalRole::from_name(b"DCTRoleNFTCreate"), DctLocalRole::NftCreate);
    assert_eq!(DctLocalRole::from_name(b"DCTRoleNFTAddQuantity"), DctLocalRole::NftAddQuantity);
    assert_eq!(DctLocalRole::from_name(b"DCTRoleNFTBurn"), DctLocalRole::NftBurn);
    assert_eq!(DctLocalRole::from_name(b"DCTRoleUnknown"), DctLocalRole::NoRole);
    assert_eq!(DctLocalRole::from_name(b""), DctLocalRole::NoRole);
    assert_eq!(
        (ROLE_NONE, ROLE_MINT, ROLE_BURN, ROLE_NFT_CREATE, ROLE_NFT_ADD_QUANTITY, ROLE_NFT_BURN),
        (0, 1, 2, 4, 8, 16)
    );
    assert_eq!(DctLocalRole::NftCreate.to_flag().bits, 4);
    assert_eq!(DctLocalRole::NoRole.to_flag().bits, 0);
    let names = vec![
        b"DCTRoleNFTBurn".to_vec(),
        b"nonsense".to_vec(),
        b"DCTRoleLocalMint".to_vec(),
        b"DCTRoleNFTBurn".to_vec(),
    ];
    let flags = DctLocalRoleFlags::from_names(&names);
    assert_eq!(flags.bits, 17);
    assert!(flags.has_role(&DctLocalRole::Mint.to_flag()));
    assert!(flags.has_role(&DctLocalRole::NftBurn.to_flag()));
    assert!(!flags.has_role(&DctLocalRole::Burn.to_flag()));
    assert_eq!(DctLocalRoleFlags::from_names(&Vec::new()).bits, 0);

    let mut state = world();
    state.credit_dct(&address(C), &token(), 0, &big(1), DctInstanceMetadata::empty());
    let mut account = state.get_account(&address(C));
    let mut data = account.dct.get_by_identifier_or_default(&token());
    data.roles = names;
    data.frozen = true;
    account.dct.tokens.insert(token(), data);
    state.add_account(&address(C), account);
    let input = call(S, C, 0, Vec::new(), b"query");
    let mut arena = Arena::new();
    arena.push_frame();
    let mut api =
        DebugApi { world: state, call_value: CallValueWrapper::new(&input).unwrap(), input, arena };
    let known = TokenIdentifier::from_dct_bytes(&mut api.arena, b"TOKEN-abcdef");
    let unknown = TokenIdentifier::from_dct_bytes(&mut api.arena, b"OTHER-123456");
    assert_eq!(api.get_dct_local_roles(known.handle).bits, 17);
    assert_eq!(api.get_dct_local_roles(unknown.handle).bits, 0);
    let own = ManagedAddress::from_address(&mut api.arena, &address(C));
    assert!(api.get_dct_token_data(&own, &known, 0).frozen);
}

#[test]
fn a_nested_call_runs_in_its_own_frame_against_the_same_ledger() {
    let (result, after) =
        run_transaction(&PayContract, call(S, C, 100, Vec::new(), b"forward"), world());
    assert_eq!(result.result_status, TxStatus::Success);
    // D's `keep` saw C as its caller and got half of what C got
    assert_eq!(result.result_values, vec![vec![50u8], address(C)]);
    assert_eq!(balance(&after, S), 900);
    assert_eq!(balance(&after, C), 50);
    assert_eq!(balance(&after, D), 50);
    assert_eq!(after.storage_load(&address(D), &b"kept".to_vec()), vec![50u8]);
    // a nested call takes no nonce
    assert_eq!(after.get_nonce(&address(S)), 1);
    assert_eq!(after.get_nonce(&address(C)), 0);
    assert_eq!(after.get_nonce(&address(D)), 0);
}

#[test]
fn a_failed_nested_call_fails_the_parent_that_does_not_recover() {
    let (result, after) =
        run_transaction(&PayContract, call(S, C, 100, Vec::new(), b"relay"), world());
    assert_eq!(result.result_status, TxStatus::UserError);
    assert_eq!(result.result_message, b"payment refused".to_vec());
    assert_eq!(balance(&after, S), 1000);
    assert_eq!(balance(&after, C), 0);
    assert_eq!(balance(&after, D), 0);
    assert_eq!(after.get_nonce(&address(S)), 1);

    let (result, after) =
        run_transaction(&PayContract, call(S, C, 100, Vec::new(), b"recover"), world());
    assert_eq!(result.result_status, TxStatus::Success);
    assert_eq!(result.result_values, vec![b"payment refused".to_vec()]);
    // the nested call was rolled back, the parent was not
    assert_eq!(balance(&after, S), 900);
    assert_eq!(balance(&after, C), 100);
    assert_eq!(balance(&after, D), 0);
}

#[test]
fn calls_cannot_be_nested_without_end() {
    let (result, after) = run_transaction(&PayContract, call(S, C, 0, Vec::new(), b"deep"), world());
    assert_eq!(result.result_status, TxStatus::Success);
    assert_eq!(
        result.result_values,
        vec![b"call depth limit reached".to_vec(), vec![MAX_CALL_DEPTH as u8]]
    );
    assert_eq!(after.get_nonce(&address(S)), 1);
    assert_eq!(after.get_nonce(&address(C)), 0);
}

#[test]
fn dispatch_leaves_the_arena_as_it_was() {
    let mut arena = Arena::new();
    arena.push_frame();
    let outer = arena.allocate();
    let (result, after, arena) =
        dispatch(&PayContract, call(S, C, 100, Vec::new(), b"keep"), world(), arena);
    assert_eq!(result.result_status, TxStatus::Success);
    assert_eq!(arena.depth(), 1);
    assert!(arena.is_valid(outer));
    assert_eq!(arena.fresh_count(), 1);
    // dispatch takes no nonce
    assert_eq!(after.get_nonce(&address(S)), 0);
    assert_eq!(balance(&after, C), 100);
    let (result, after) = execute_sc_call(&PayContract, call(S, C, 100, Vec::new(), b"pay"), after);
    assert_eq!(result.result_status, TxStatus::UserError);
    assert_eq!(after.get_nonce(&address(S)), 0);
    assert_eq!(balance(&after, S), 900);
}

#[test]
fn finish_call_commits_or_rolls_back() {
    let mut after = world();
    after.credit_native(&address(X), &big(1));
    let (result, kept) = finish_call(Some(Ok(vec![b"out".to_vec()])), world(), after);
    assert_eq!(result.result_status, TxStatus::Success);
    assert_eq!(result.result_values, vec![b"out".to_vec()]);
    assert_eq!(balance(&kept, X), 1);

    let mut after = world();
    after.credit_native(&address(X), &big(1));
    let error = TxError::new(TxStatus::NonPayableOrWrongToken, b"no".to_vec());
    let (result, kept) = finish_call(Some(Err(error)), world(), after);
    assert_eq!(result.result_status, TxStatus::NonPayableOrWrongToken);
    assert_eq!(result.result_message, b"no".to_vec());
    assert_eq!(balance(&kept, X), 0);

    let mut after = world();
    after.credit_native(&address(X), &big(1));
    let (result, kept) = finish_call(None, world(), after);
    assert_eq!(result.result_status, TxStatus::FunctionNotFound);
    assert_eq!(balance(&kept, X), 0);
}

#[test]
fn an_error_is_never_a_success() {
    let e = TxError::new(TxStatus::Success, b"odd".to_vec());
    assert_eq!(e.status(), TxStatus::UserError);
    assert_eq!(e.message(), &b"odd".to_vec());
    let r = TxResult::failure(e);
    assert!(!r.is_success());
    assert_eq!(r.result_message, b"odd".to_vec());
    assert!(TxResult::success(Vec::new()).is_success());
}

#[test]
fn transfer_steps_and_rewards() {
    let mut state = world();
    let ok = TxTransfer {
        from: address(S),
        to: address(X),
        moax_value: big(400),
        dct_value: Vec::new(),
        gas_limit: 0,
        gas_price: 0,
    };
    let (result, state2) = execute(world(), &ok);
    assert_eq!(result.result_status, TxStatus::Success);
    assert_eq!(balance(&state2, S), 600);
    assert_eq!(balance(&state2, X), 400);
    assert_eq!(state2.get_nonce(&address(S)), 1);

    assert_eq!(state.denali_transfer(&ok).result_status, TxStatus::Success);
    assert_eq!(state.denali_transfer(&ok).result_status, TxStatus::Success);
    let failed = state.denali_transfer(&ok);
    assert_eq!(failed.result_status, TxStatus::InsufficientFunds);
    assert_eq!(balance(&state, S), 200);
    assert_eq!(balance(&state, X), 800);
    assert_eq!(state.get_nonce(&address(S)), 3);

    state.denali_validator_reward(&TxValidatorReward { to: address(X), moax_value: big(5) });
    state.denali_validator_reward(&TxValidatorReward { to: address(Y), moax_value: big(6) });
    assert_eq!(balance(&state, X), 805);
    assert_eq!(balance(&state, Y), 6);
    assert_eq!(state.get_nonce(&address(X)), 0);
    assert_eq!(state.get_nonce(&address(Y)), 0);
    assert_eq!(state.get_nonce(&address(S)), 3);
}
