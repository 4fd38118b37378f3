use dharitri_sim::arena::{Arena, CALL_VALUE_MOAX, CALL_VALUE_MULTI_DCT, CALL_VALUE_SINGLE_DCT};
use dharitri_sim::big_nat::BigNat;
use dharitri_sim::call_value::CallValueWrapper;
use dharitri_sim::dct::DctInstanceMetadata;
use dharitri_sim::debug_api::DebugApi;
use dharitri_sim::executor::{run_transaction, ContractMap};
use dharitri_sim::managed::{BigUint, ManagedBuffer, TokenIdentifier};
use dharitri_sim::payable_features::PayableFeatures;
use dharitri_sim::second_contract::SecondContract;
use dharitri_sim::token_identifier_features::TokenIdentifierFeatures;
use dharitri_sim::tx::{TxError, TxInput, TxInputDct, TxStatus};
use dharitri_sim::world::{AccountData, BlockchainMock};

fn address(b: u8) -> Vec<u8> {
    vec![b; 32]
}

fn big(x: u64) -> BigNat {
    BigNat::from_u64(x)
}

const TOKEN: &[u8] = b"PAYABLE-FEATURES-TOKEN";
const OTHER: &[u8] = b"OTHER-123456";

fn call(moax: u64, transfers: &[(&[u8], u64, u64)], func: &[u8]) -> TxInput {
    TxInput {
        from: address(1),
        to: address(2),
        moax_value: big(moax),
        dct_values: transfers
            .iter()
            .map(|(identifier, nonce, value)| TxInputDct {
                token_identifier: identifier.to_vec(),
                nonce: *nonce,
                value: big(*value),
            })
            .collect(),
        func_name: func.to_vec(),
        args: Vec::new(),
        gas_limit: 0,
        gas_price: 0,
        tx_hash: Vec::new(),
    }
}

fn api(moax: u64, transfers: &[(&[u8], u64, u64)]) -> DebugApi {
    let input = call(moax, transfers, b"f");
    let mut arena = Arena::new();
    arena.push_frame();
    DebugApi {
        world: BlockchainMock::new(),
        call_value: CallValueWrapper::new(&input).unwrap(),
        input,
        arena,
    }
}

fn read(api: &DebugApi, pair: (BigUint, TokenIdentifier)) -> (u64, Vec<u8>) {
    (
        pair.0.to_big_nat(&api.arena).to_u64().unwrap(),
        pair.1.as_name(&api.arena),
    )
}

type Endpoint = fn(&dharitri_sim::payable_features::ContractObj, &mut DebugApi) -> (BigUint, TokenIdentifier);
type CheckedEndpoint = fn(
    &dharitri_sim::payable_features::ContractObj,
    &mut DebugApi,
) -> Result<(BigUint, TokenIdentifier), TxError>;

fn any_endpoints() -> Vec<Endpoint> {
    vec![
        |c, a| c.payable_any_1(a),
        |c, a| c.payable_any_2(a),
        |c, a| c.payable_any_3(a),
        |c, a| c.payable_any_4(a),
    ]
}

fn moax_endpoints() -> Vec<CheckedEndpoint> {
    vec![
        |c, a| c.payable_moax_1(a),
        |c, a| c.payable_moax_2(a),
        |c, a| c.payable_moax_3(a),
        |c, a| c.payable_moax_4(a),
    ]
}

fn token_endpoints() -> Vec<CheckedEndpoint> {
    vec![
        |c, a| c.payable_token_1(a),
        |c, a| c.payable_token_2(a),
        |c, a| c.payable_token_3(a),
        |c, a| c.payable_token_4(a),
    ]
}

#[test]
fn functions_for_any_payment_return_amount_and_token() {
    let contract = dharitri_sim::payable_features::ContractObj;
    for f in any_endpoints() {
        let mut native = api(100, &[]);
        let pair = f(&contract, &mut native);
        assert_eq!(read(&native, pair), (100, b"MOAX".to_vec()));
        assert_eq!(pair.0.handle, CALL_VALUE_MOAX);

        let mut token = api(0, &[(OTHER, 2, 7)]);
        let pair = f(&contract, &mut token);
        assert_eq!(read(&token, pair), (7, OTHER.to_vec()));
        assert_eq!(pair.0.handle, CALL_VALUE_SINGLE_DCT);

        let mut nothing = api(0, &[]);
        let pair = f(&contract, &mut nothing);
        assert_eq!(read(&nothing, pair), (0, b"MOAX".to_vec()));
    }
}

#[test]
fn functions_for_the_native_currency_refuse_tokens() {
    let contract = dharitri_sim::payable_features::ContractObj;
    for f in moax_endpoints() {
        let mut native = api(100, &[]);
        let pair = f(&contract, &mut native).unwrap();
        assert_eq!(read(&native, pair), (100, b"MOAX".to_vec()));

        let mut token = api(0, &[(TOKEN, 0, 7)]);
        let e = f(&contract, &mut token).err().unwrap();
        assert_eq!(e.status(), TxStatus::NonPayableOrWrongToken);
        assert_eq!(e.message(), &b"function does not accept DCT payment".to_vec());
        assert_eq!(token.arena.fresh_count(), 0);
    }
}

#[test]
fn functions_for_the_token_refuse_anything_else() {
    let contract = dharitri_sim::payable_features::ContractObj;
    for f in token_endpoints() {
        let mut right = api(0, &[(TOKEN, 0, 7)]);
        let pair = f(&contract, &mut right).unwrap();
        assert_eq!(read(&right, pair), (7, TOKEN.to_vec()));
        assert_eq!(pair.0.handle, CALL_VALUE_SINGLE_DCT);

        let mut wrong = api(0, &[(OTHER, 0, 7)]);
        let e = f(&contract, &mut wrong).err().unwrap();
        assert_eq!(e.status(), TxStatus::NonPayableOrWrongToken);
        assert_eq!(e.message(), &b"bad call value token provided".to_vec());

        let mut native = api(100, &[]);
        let e = f(&contract, &mut native).err().unwrap();
        assert_eq!(e.status(), TxStatus::NonPayableOrWrongToken);
        assert_eq!(e.message(), &b"function expects single DCT payment".to_vec());

        let mut two = api(0, &[(TOKEN, 0, 7), (TOKEN, 0, 1)]);
        let e = f(&contract, &mut two).err().unwrap();
        assert_eq!(e.message(), &b"function expects single DCT payment".to_vec());
    }
}

#[test]
fn echo_call_value_returns_all_that_came() {
    let contract = dharitri_sim::payable_features::ContractObj;
    let mut a = api(0, &[(TOKEN, 0, 7), (OTHER, 3, 1)]);
    contract.init(&mut a);
    let (moax, transfers) = contract.echo_call_value(&mut a);
    assert_eq!((moax.handle, transfers.handle), (CALL_VALUE_MOAX, CALL_VALUE_MULTI_DCT));
    assert_eq!(moax.to_big_nat(&a.arena).to_u64(), Some(0));
    assert_eq!(a.arena.read_handle_vec(transfers.handle), &vec![-198, -195]);
    assert_eq!(a.arena.read_buffer(-200), &TOKEN.to_vec());
    assert_eq!(a.arena.read_big_int(-199).to_u64(), Some(7));
    assert_eq!(a.arena.read_buffer(-197), &OTHER.to_vec());
    assert_eq!(a.arena.read_big_int(-196).to_u64(), Some(1));

    let mut b = api(100, &[]);
    let (moax, transfers) = contract.echo_call_value(&mut b);
    assert_eq!(moax.to_big_nat(&b.arena).to_u64(), Some(100));
    assert!(b.arena.read_handle_vec(transfers.handle).is_empty());

    let mut c = api(0, &[(OTHER, 3, 1)]);
    let list = contract.payment_multiple(&mut c);
    assert_eq!(c.arena.read_handle_vec(list.handle), &vec![-198]);
}

#[test]
fn the_second_contract_takes_its_own_token_only() {
    let contract = dharitri_sim::second_contract::ContractObj;
    let mut a = api(0, &[(OTHER, 0, 5)]);
    // before it is set up, the contract takes the native currency
    assert_eq!(
        contract.accept_dct_payment(&mut a).err().unwrap().message(),
        &b"Wrong dct token".to_vec()
    );
    let id = TokenIdentifier::from_dct_bytes(&mut a.arena, OTHER);
    contract.init(&mut a, id);
    assert_eq!(a.world.storage_load(&address(2), &b"dctTokenName".to_vec()), OTHER.to_vec());
    assert_eq!(a.storage_load(&b"dctTokenName".to_vec()), OTHER.to_vec());
    assert!(contract.accept_dct_payment(&mut a).is_ok());
    let stored = contract.get_contract_dct_token_identifier(&mut a);
    assert_eq!(stored.as_name(&a.arena), OTHER.to_vec());

    let other = TokenIdentifier::from_dct_bytes(&mut a.arena, TOKEN);
    contract.set_contract_dct_token_identifier(&mut a, &other);
    let e = contract.accept_dct_payment(&mut a).err().unwrap();
    assert_eq!(e.status(), TxStatus::UserError);
    assert_eq!(e.message(), &b"Wrong dct token".to_vec());

    let e = contract.reject_dct_payment(&mut a).err().unwrap();
    assert_eq!(e.status(), TxStatus::UserError);
    assert_eq!(e.message(), &b"Rejected".to_vec());

    let mut native = api(5, &[]);
    assert!(contract.accept_dct_payment(&mut native).is_ok());
}

#[test]
fn token_identifiers_are_checked_for_their_form() {
    let contract = dharitri_sim::token_identifier_features::ContractObj;
    let mut a = api(0, &[]);
    let moax = contract.token_identifier_moax(&mut a);
    assert_eq!(moax.as_name(&a.arena), b"MOAX".to_vec());
    assert!(!contract.token_identifier_is_valid_1(&a, moax));
    let cases: [(&[u8], bool); 14] = [
        (b"TOKEN-abcdef", true),
        (b"ABC-123456", true),
        (b"A1B2C3D4E5-a1b2c3", true),
        (b"PAYABLE-FEATURES-TOKEN", false),
        (b"AB-123456", false),
        (b"A1B2C3D4E5F-a1b2c3", false),
        (b"token-abcdef", false),
        (b"TOKEN-ABCDEF", false),
        (b"TOKEN_abcdef", false),
        (b"TOKEN-abcde", false),
        (b"TOKEN-abcdefg", false),
        (b"TOK-EN-abcdef", false),
        (b"TOKEN-abc-ef", false),
        (b"", false),
    ];
    for (name, valid) in cases {
        let buffer = ManagedBuffer::new_from_bytes(&mut a.arena, name);
        assert_eq!(contract.token_identifier_is_valid_2(&a, buffer), valid, "{:?}", name);
        let id = TokenIdentifier::from_raw_handle(buffer.handle);
        assert_eq!(contract.token_identifier_is_valid_1(&a, id), valid);
        assert_eq!(id.is_valid_dct_identifier(&a.arena), valid);
    }
}

/// The two contracts as code: `payable` and `second`.
struct Features;

fn encode(api: &DebugApi, pair: (BigUint, TokenIdentifier)) -> Vec<Vec<u8>> {
    vec![pair.0.to_big_nat(&api.arena).to_bytes_be(), pair.1.as_name(&api.arena)]
}

impl ContractMap for Features {
    fn call_contract(
        &self,
        code: &Vec<u8>,
        func_name: &Vec<u8>,
        api: &mut DebugApi,
    ) -> Option<Result<Vec<Vec<u8>>, TxError>> {
        let payable = dharitri_sim::payable_features::ContractObj;
        let second = dharitri_sim::second_contract::ContractObj;
        match (code.as_slice(), func_name.as_slice()) {
            (b"payable", b"payable_any_1") => {
                let pair = payable.payable_any_1(api);
                Some(Ok(encode(api, pair)))
            }
            (b"payable", b"payable_moax_1") => {
                Some(payable.payable_moax_1(api).map(|pair| encode(api, pair)))
            }
            (b"payable", b"payable_token_1") => {
                Some(payable.payable_token_1(api).map(|pair| encode(api, pair)))
            }
            (b"second", b"acceptDctPayment") => {
                Some(second.accept_dct_payment(api).map(|_| Vec::new()))
            }
            (b"second", b"rejectDctPayment") => {
                Some(second.reject_dct_payment(api).map(|_| Vec::new()))
            }
            _ => None,
        }
    }
}

fn world() -> BlockchainMock {
    let mut world = BlockchainMock::new();
    world.credit_native(&address(1), &big(1000));
    world.credit_dct(&address(1), &TOKEN.to_vec(), 0, &big(50), DctInstanceMetadata::empty());
    world.credit_dct(&address(1), &OTHER.to_vec(), 0, &big(50), DctInstanceMetadata::empty());
    let mut payable = AccountData::default();
    payable.contract_path = Some(b"payable".to_vec());
    world.add_account(&address(2), payable);
    let mut second = AccountData::default();
    second.contract_path = Some(b"second".to_vec());
    world.add_account(&address(3), second);
    world.storage_store(&address(3), &b"dctTokenName".to_vec(), TOKEN.to_vec());
    world
}

#[test]
fn a_payment_that_a_function_does_not_take_is_rolled_back() {
    let (result, after) =
        run_transaction(&Features, call(0, &[(TOKEN, 0, 5)], b"payable_moax_1"), world());
    assert_eq!(result.result_status, TxStatus::NonPayableOrWrongToken);
    assert_eq!(result.result_message, b"function does not accept DCT payment".to_vec());
    assert_eq!(after.get_dct_balance(&address(1), &TOKEN.to_vec(), 0).to_u64(), Some(50));
    assert!(after.get_dct_balance(&address(2), &TOKEN.to_vec(), 0).is_zero());
    assert_eq!(after.get_nonce(&address(1)), 1);

    let (result, after) =
        run_transaction(&Features, call(0, &[(OTHER, 0, 5)], b"payable_token_1"), after);
    assert_eq!(result.result_status, TxStatus::NonPayableOrWrongToken);
    assert_eq!(result.result_message, b"bad call value token provided".to_vec());
    assert_eq!(after.get_dct_balance(&address(1), &OTHER.to_vec(), 0).to_u64(), Some(50));
    assert_eq!(after.get_nonce(&address(1)), 2);

    let (result, after) =
        run_transaction(&Features, call(0, &[(TOKEN, 0, 5)], b"payable_token_1"), after);
    assert_eq!(result.result_status, TxStatus::Success);
    assert_eq!(result.result_values, vec![vec![5u8], TOKEN.to_vec()]);
    assert_eq!(after.get_dct_balance(&address(1), &TOKEN.to_vec(), 0).to_u64(), Some(45));
    assert_eq!(after.get_dct_balance(&address(2), &TOKEN.to_vec(), 0).to_u64(), Some(5));

    let (result, after) = run_transaction(&Features, call(300, &[], b"payable_any_1"), after);
    assert_eq!(result.result_status, TxStatus::Success);
    assert_eq!(result.result_values, vec![vec![1u8, 44], b"MOAX".to_vec()]);
    assert_eq!(after.get_moax_balance(&address(2)).to_u64(), Some(300));
    assert_eq!(after.get_nonce(&address(1)), 4);
}

#[test]
fn the_second_contract_runs_through_the_executor() {
    let mut accept = call(0, &[(TOKEN, 0, 5)], b"acceptDctPayment");
    accept.to = address(3);
    let (result, after) = run_transaction(&Features, accept, world());
    assert_eq!(result.result_status, TxStatus::Success);
    assert_eq!(after.get_dct_balance(&address(3), &TOKEN.to_vec(), 0).to_u64(), Some(5));

    let mut wrong = call(0, &[(OTHER, 0, 5)], b"acceptDctPayment");
    wrong.to = address(3);
    let (result, after) = run_transaction(&Features, wrong, after);
    assert_eq!(result.result_status, TxStatus::UserError);
    assert_eq!(result.result_message, b"Wrong dct token".to_vec());
    assert!(after.get_dct_balance(&address(3), &OTHER.to_vec(), 0).is_zero());

    let mut reject = call(0, &[(TOKEN, 0, 5)], b"rejectDctPayment");
    reject.to = address(3);
    let (result, after) = run_transaction(&Features, reject, after);
    assert_eq!(result.result_status, TxStatus::UserError);
    assert_eq!(result.result_message, b"Rejected".to_vec());
    assert_eq!(after.get_dct_balance(&address(3), &TOKEN.to_vec(), 0).to_u64(), Some(5));
    assert_eq!(after.get_dct_balance(&address(1), &TOKEN.to_vec(), 0).to_u64(), Some(45));
    assert_eq!(after.get_nonce(&address(1)), 3);
}
