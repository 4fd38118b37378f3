use dharitri_sim::big_nat::BigNat;
use dharitri_sim::dct::DctInstanceMetadata;
use dharitri_sim::executor::run_transaction;
use dharitri_sim::feature_contracts::FeatureContracts;
use dharitri_sim::tx::{TxInput, TxInputDct, TxResult, TxStatus};
use dharitri_sim::world::{AccountData, BlockchainMock};

fn address(b: u8) -> Vec<u8> {
    vec![b; 32]
}

fn big(x: u64) -> BigNat {
    BigNat::from_u64(x)
}

const SENDER: u8 = 1;
const PAYABLE: u8 = 2;
const SECOND: u8 = 3;
const BASIC: u8 = 4;
const UNKNOWN: u8 = 5;
const TOKEN: &[u8] = b"PAYABLE-FEATURES-TOKEN";
const OTHER: &[u8] = b"OTHER-123456";

fn contract(code: &[u8]) -> AccountData {
    let mut account = AccountData::default();
    account.contract_path = Some(code.to_vec());
    account
}

fn world() -> BlockchainMock {
    let mut world = BlockchainMock::new();
    world.credit_native(&address(SENDER), &big(1000));
    world.credit_dct(&address(SENDER), &TOKEN.to_vec(), 0, &big(50), DctInstanceMetadata::empty());
    world.credit_dct(&address(SENDER), &OTHER.to_vec(), 7, &big(500), DctInstanceMetadata::empty());
    world.add_account(&address(PAYABLE), contract(b"payable-features"));
    world.add_account(&address(SECOND), contract(b"second-contract"));
    world.add_account(&address(BASIC), contract(b"basic-features"));
    world.add_account(&address(UNKNOWN), contract(b"some-other-code"));
    world
}

fn call(to: u8, moax: u64, transfers: &[(&[u8], u64, u64)], func: &[u8], args: &[&[u8]]) -> TxInput {
    TxInput {
        from: address(SENDER),
        to: address(to),
        moax_value: big(moax),
        dct_values: transfers
            .iter()
            .map(|(identifier, nonce, value)| TxInputDct {
                token_identifier: identifier.to_vec(),
                nonce: *nonce,
                value: big(*value),
            })
            .collect(),
        func_name: func.to_vec(),
        args: args.iter().map(|a| a.to_vec()).collect(),
        gas_limit: 0,
        gas_price: 0,
        tx_hash: Vec::new(),
    }
}

fn run(input: TxInput) -> TxResult {
    run_transaction(&FeatureContracts, input, world()).0
}

#[test]
fn payable_functions_return_amount_and_token_as_bytes() {
    for name in [&b"payable_any_1"[..], b"payable_any_2", b"payable_any_3", b"payable_any_4"] {
        let native = run(call(PAYABLE, 300, &[], name, &[]));
        assert_eq!(native.result_status, TxStatus::Success);
        assert_eq!(native.result_values, vec![vec![1u8, 44], b"MOAX".to_vec()]);
        let token = run(call(PAYABLE, 0, &[(OTHER, 7, 2)], name, &[]));
        assert_eq!(token.result_values, vec![vec![2u8], OTHER.to_vec()]);
        let nothing = run(call(PAYABLE, 0, &[], name, &[]));
        assert_eq!(nothing.result_values, vec![Vec::new(), b"MOAX".to_vec()]);
    }
    for name in [&b"payable_moax_1"[..], b"payable_moax_2", b"payable_moax_3", b"payable_moax_4"] {
        let native = run(call(PAYABLE, 300, &[], name, &[]));
        assert_eq!(native.result_values, vec![vec![1u8, 44], b"MOAX".to_vec()]);
        let token = run(call(PAYABLE, 0, &[(TOKEN, 0, 2)], name, &[]));
        assert_eq!(token.result_status, TxStatus::NonPayableOrWrongToken);
        assert_eq!(token.result_message, b"function does not accept DCT payment".to_vec());
        assert!(token.result_values.is_empty());
    }
    for name in
        [&b"payable_token_1"[..], b"payable_token_2", b"payable_token_3", b"payable_token_4"]
    {
        let token = run(call(PAYABLE, 0, &[(TOKEN, 0, 2)], name, &[]));
        assert_eq!(token.result_status, TxStatus::Success);
        assert_eq!(token.result_values, vec![vec![2u8], TOKEN.to_vec()]);
        let other = run(call(PAYABLE, 0, &[(OTHER, 7, 2)], name, &[]));
        assert_eq!(other.result_status, TxStatus::NonPayableOrWrongToken);
        assert_eq!(other.result_message, b"bad call value token provided".to_vec());
        let native = run(call(PAYABLE, 300, &[], name, &[]));
        assert_eq!(native.result_status, TxStatus::NonPayableOrWrongToken);
        assert_eq!(native.result_message, b"function expects single DCT payment".to_vec());
    }
}

#[test]
fn echo_call_value_returns_the_transfers_in_call_order() {
    let result =
        run(call(PAYABLE, 0, &[(OTHER, 7, 258), (TOKEN, 0, 1), (OTHER, 7, 3)], b"echo_call_value", &[]));
    assert_eq!(result.result_status, TxStatus::Success);
    assert_eq!(
        result.result_values,
        vec![
            Vec::new(),
            OTHER.to_vec(),
            vec![0, 0, 0, 0, 0, 0, 0, 7],
            vec![1, 2],
            TOKEN.to_vec(),
            vec![0; 8],
            vec![1],
            OTHER.to_vec(),
            vec![0, 0, 0, 0, 0, 0, 0, 7],
            vec![3],
        ]
    );
    let native = run(call(PAYABLE, 5, &[], b"echo_call_value", &[]));
    assert_eq!(native.result_values, vec![vec![5u8]]);
    let list = run(call(PAYABLE, 0, &[(TOKEN, 0, 9)], b"payment_multiple", &[]));
    assert_eq!(list.result_values, vec![TOKEN.to_vec(), vec![0; 8], vec![9]]);
    let empty = run(call(PAYABLE, 5, &[], b"payment_multiple", &[]));
    assert_eq!(empty.result_status, TxStatus::Success);
    assert!(empty.result_values.is_empty());
    let init = run(call(PAYABLE, 5, &[], b"init", &[]));
    assert_eq!(init.result_status, TxStatus::Success);
    assert!(init.result_values.is_empty());
}

#[test]
fn unknown_functions_and_unknown_code_are_not_found() {
    for to in [PAYABLE, SECOND, BASIC, UNKNOWN] {
        let (result, after) =
            run_transaction(&FeatureContracts, call(to, 5, &[], b"no_such_function", &[]), world());
        assert_eq!(result.result_status, TxStatus::FunctionNotFound);
        assert_eq!(after.get_moax_balance(&address(SENDER)).to_u64(), Some(1000));
        assert_eq!(after.get_nonce(&address(SENDER)), 1);
    }
    let result = run(call(UNKNOWN, 5, &[], b"payable_any_1", &[]));
    assert_eq!(result.result_status, TxStatus::FunctionNotFound);
}

#[test]
fn the_second_contract_is_set_up_by_init() {
    let (result, state) =
        run_transaction(&FeatureContracts, call(SECOND, 0, &[], b"init", &[OTHER]), world());
    assert_eq!(result.result_status, TxStatus::Success);
    assert_eq!(state.storage_load(&address(SECOND), &b"dctTokenName".to_vec()), OTHER.to_vec());

    let (result, state) =
        run_transaction(&FeatureContracts, call(SECOND, 0, &[], b"getdctTokenName", &[]), state);
    assert_eq!(result.result_values, vec![OTHER.to_vec()]);

    let (result, state) = run_transaction(
        &FeatureContracts,
        call(SECOND, 0, &[(OTHER, 7, 4)], b"acceptDctPayment", &[]),
        state,
    );
    assert_eq!(result.result_status, TxStatus::Success);
    assert_eq!(state.get_dct_balance(&address(SECOND), &OTHER.to_vec(), 7).to_u64(), Some(4));

    let (result, state) = run_transaction(
        &FeatureContracts,
        call(SECOND, 0, &[(TOKEN, 0, 4)], b"acceptDctPayment", &[]),
        state,
    );
    assert_eq!(result.result_status, TxStatus::UserError);
    assert_eq!(result.result_message, b"Wrong dct token".to_vec());
    assert!(state.get_dct_balance(&address(SECOND), &TOKEN.to_vec(), 0).is_zero());

    let (result, state) = run_transaction(
        &FeatureContracts,
        call(SECOND, 0, &[(OTHER, 7, 4)], b"rejectDctPayment", &[]),
        state,
    );
    assert_eq!(result.result_status, TxStatus::UserError);
    assert_eq!(result.result_message, b"Rejected".to_vec());
    assert_eq!(state.get_dct_balance(&address(SECOND), &OTHER.to_vec(), 7).to_u64(), Some(4));
    assert_eq!(state.get_nonce(&address(SENDER)), 5);
}

#[test]
fn functions_that_take_no_payment_refuse_one() {
    let paid = run(call(SECOND, 1, &[], b"init", &[OTHER]));
    assert_eq!(paid.result_status, TxStatus::NonPayableOrWrongToken);
    assert_eq!(paid.result_message, b"function does not accept MOAX payment".to_vec());
    let tokens = run(call(SECOND, 0, &[(TOKEN, 0, 1)], b"getdctTokenName", &[]));
    assert_eq!(tokens.result_status, TxStatus::NonPayableOrWrongToken);
    assert_eq!(tokens.result_message, b"function does not accept DCT payment".to_vec());
    let moax = run(call(BASIC, 1, &[], b"token_identifier_moax", &[]));
    assert_eq!(moax.result_message, b"function does not accept MOAX payment".to_vec());
    let valid = run(call(BASIC, 0, &[(TOKEN, 0, 1)], b"token_identifier_is_valid_1", &[TOKEN]));
    assert_eq!(valid.result_message, b"function does not accept DCT payment".to_vec());

    let none = run(call(SECOND, 0, &[], b"init", &[]));
    assert_eq!(none.result_status, TxStatus::UserError);
    assert_eq!(none.result_message, b"wrong number of arguments".to_vec());
    let two = run(call(BASIC, 0, &[], b"token_identifier_is_valid_2", &[TOKEN, TOKEN]));
    assert_eq!(two.result_status, TxStatus::UserError);
    assert_eq!(two.result_message, b"wrong number of arguments".to_vec());
}

#[test]
fn identifiers_are_examined_through_the_executor() {
    let moax = run(call(BASIC, 0, &[], b"token_identifier_moax", &[]));
    assert_eq!(moax.result_values, vec![b"MOAX".to_vec()]);
    for name in [&b"token_identifier_is_valid_1"[..], b"token_identifier_is_valid_2"] {
        let good = run(call(BASIC, 0, &[], name, &[b"TOKEN-abcdef"]));
        assert_eq!(good.result_status, TxStatus::Success);
        assert_eq!(good.result_values, vec![vec![1u8]]);
        let bad = run(call(BASIC, 0, &[], name, &[b"token-abcdef"]));
        assert_eq!(bad.result_values, vec![Vec::<u8>::new()]);
        let empty = run(call(BASIC, 0, &[], name, &[b""]));
        assert_eq!(empty.result_values, vec![Vec::<u8>::new()]);
    }
    let getter = run(call(SECOND, 0, &[], b"getdctTokenName", &[]));
    assert_eq!(getter.result_values, vec![b"MOAX".to_vec()]);
}
