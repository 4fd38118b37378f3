use dharitri_sim::arena::{
    Arena, ArenaValue, CALL_VALUE_MOAX, CALL_VALUE_MULTI_DCT, CALL_VALUE_SINGLE_DCT,
    MBUF_TEMPORARY_1, NEW_HANDLE_START_FROM,
};
use dharitri_sim::big_nat::BigNat;
use dharitri_sim::call_value::CallValueWrapper;
use dharitri_sim::dct_token_payment::DctTokenPayment;
use dharitri_sim::managed::{
    BigUint, DctTokenType, ManagedAddress, ManagedBuffer, ManagedVec, TokenIdentifier,
};
use dharitri_sim::managed_vec_item::{
    handle_as_u32, handle_from_u32, managed_vec_item_from_slice, managed_vec_item_to_slice,
    u32_from_be_bytes, u32_to_be_bytes, ManagedVecItem,
};
use dharitri_sim::tx::{TxInput, TxInputDct, TxStatus};

fn address(b: u8) -> Vec<u8> {
    vec![b; 32]
}

fn frame() -> Arena {
    let mut arena = Arena::new();
    arena.push_frame();
    arena
}

fn number(arena: &Arena, handle: i32) -> u64 {
    arena.read_big_int(handle).to_u64().unwrap()
}

fn bytes(arena: &Arena, handle: i32) -> Vec<u8> {
    arena.read_buffer(handle).clone()
}

fn input(moax: u64, transfers: &[(&[u8], u64, u64)]) -> TxInput {
    TxInput {
        from: address(1),
        to: address(2),
        moax_value: BigNat::from_u64(moax),
        dct_values: transfers
            .iter()
            .map(|(identifier, nonce, value)| TxInputDct {
                token_identifier: identifier.to_vec(),
                nonce: *nonce,
                value: BigNat::from_u64(*value),
            })
            .collect(),
        func_name: b"f".to_vec(),
        args: Vec::new(),
        gas_limit: 1000,
        gas_price: 1,
        tx_hash: vec![0u8; 32],
    }
}

fn call_value(moax: u64, transfers: &[(&[u8], u64, u64)]) -> CallValueWrapper {
    CallValueWrapper::new(&input(moax, transfers)).unwrap()
}

#[test]
fn handles_count_up_from_the_start_of_the_frame() {
    let mut arena = frame();
    assert_eq!(arena.depth(), 1);
    assert_eq!(arena.fresh_count(), 0);
    assert_eq!(arena.allocate(), NEW_HANDLE_START_FROM);
    assert_eq!(arena.allocate(), NEW_HANDLE_START_FROM + 1);
    assert_eq!(arena.insert_new(ArenaValue::BigInt(BigNat::from_u64(9))), -198);
    assert_eq!(arena.fresh_count(), 3);
    assert_eq!(bytes(&arena, -200), Vec::<u8>::new());
    assert_eq!(number(&arena, -198), 9);
}

#[test]
fn write_replaces_and_duplicate_copies() {
    let mut arena = frame();
    let h = arena.allocate();
    arena.write(h, ArenaValue::Buffer(b"abc".to_vec()));
    assert_eq!(bytes(&arena, h), b"abc".to_vec());
    let copy = arena.duplicate(h);
    assert_eq!(copy, h + 1);
    arena.write(h, ArenaValue::BigInt(BigNat::from_u64(5)));
    assert_eq!(bytes(&arena, copy), b"abc".to_vec());
    assert_eq!(number(&arena, h), 5);
    let list = arena.insert_new(ArenaValue::HandleVec(vec![h, copy]));
    assert_eq!(arena.read_handle_vec(list), &vec![h, copy]);
    assert!(matches!(arena.read(list), ArenaValue::HandleVec(_)));
}

#[test]
fn reserved_slots_exist_from_the_start() {
    let arena = frame();
    assert_eq!(CALL_VALUE_MOAX, -201);
    assert_eq!(CALL_VALUE_MULTI_DCT, -202);
    assert_eq!(CALL_VALUE_SINGLE_DCT, -203);
    assert_eq!(MBUF_TEMPORARY_1, -204);
    assert!(arena.is_valid(CALL_VALUE_MOAX));
    assert!(arena.is_valid(CALL_VALUE_MULTI_DCT));
    assert!(arena.is_valid(CALL_VALUE_SINGLE_DCT));
    assert!(arena.is_valid(MBUF_TEMPORARY_1));
    assert!(!arena.is_valid(-205));
    assert!(!arena.is_valid(NEW_HANDLE_START_FROM));
    assert!(!arena.is_valid(0));
    assert!(!arena.is_valid(i32::MAX));
    assert!(!arena.is_valid(i32::MIN));
    assert_eq!(number(&arena, CALL_VALUE_MOAX), 0);
    assert_eq!(number(&arena, CALL_VALUE_SINGLE_DCT), 0);
    assert_eq!(bytes(&arena, MBUF_TEMPORARY_1), Vec::<u8>::new());
    assert!(arena.read_handle_vec(CALL_VALUE_MULTI_DCT).is_empty());
}

#[test]
fn an_arena_without_a_frame_has_no_handle() {
    let arena = Arena::new();
    assert_eq!(arena.depth(), 0);
    assert!(!arena.is_valid(CALL_VALUE_MOAX));
    assert!(!arena.is_valid(NEW_HANDLE_START_FROM));
    assert!(!arena.can_allocate(0));
    assert!(frame().can_allocate(1_000_000));
}

#[test]
fn a_new_frame_hides_the_frame_below_and_closing_it_brings_it_back() {
    let mut arena = frame();
    let h = arena.insert_new(ArenaValue::Buffer(b"outer".to_vec()));
    arena.write(CALL_VALUE_MOAX, ArenaValue::BigInt(BigNat::from_u64(100)));
    arena.push_frame();
    assert_eq!(arena.depth(), 2);
    assert!(!arena.is_valid(h));
    assert_eq!(number(&arena, CALL_VALUE_MOAX), 0);
    let inner = arena.insert_new(ArenaValue::Buffer(b"inner".to_vec()));
    assert_eq!(inner, h);
    arena.write(CALL_VALUE_MOAX, ArenaValue::BigInt(BigNat::from_u64(7)));
    arena.pop_frame();
    assert_eq!(arena.depth(), 1);
    assert_eq!(bytes(&arena, h), b"outer".to_vec());
    assert_eq!(number(&arena, CALL_VALUE_MOAX), 100);
    assert_eq!(arena.fresh_count(), 1);
}

#[test]
fn the_same_steps_give_the_same_handles() {
    let run = || {
        let mut arena = frame();
        let cv = call_value(0, &[(b"TOKEN-abcdef", 1, 5), (b"OTHER-123456", 0, 8)]);
        let list = cv.all_dct_transfers(&mut arena);
        let token = cv.token(&mut arena);
        let records = arena.read_handle_vec(list.handle).clone();
        (list.handle, token.handle, records, arena.fresh_count())
    };
    let first = run();
    let second = run();
    assert_eq!(first, second);
    assert_eq!(first, (CALL_VALUE_MULTI_DCT, -194, vec![-198, -195], 7));
}

#[test]
fn integers_are_laid_out_big_endian() {
    assert_eq!(u32_to_be_bytes(0x12345), vec![0x00, 0x01, 0x23, 0x45]);
    assert_eq!(u32_from_be_bytes(&[0x00, 0x01, 0x23, 0x45]), 0x12345);
    assert_eq!(u32_to_be_bytes(u32::MAX), vec![0xff; 4]);
    assert_eq!(0x0102_0304_0506_0708u64.to_byte_writer(), vec![1, 2, 3, 4, 5, 6, 7, 8]);
    assert_eq!(u64::from_byte_reader(&[1, 2, 3, 4, 5, 6, 7, 8]), 0x0102_0304_0506_0708u64);
    assert_eq!(u64::from_byte_reader(&[0xff; 8]), u64::MAX);
    assert_eq!(<u32 as ManagedVecItem>::payload_size(), 4);
    assert_eq!(<u64 as ManagedVecItem>::payload_size(), 8);
    assert!(<u32 as ManagedVecItem>::skips_reserialization());
    assert!(<u64 as ManagedVecItem>::skips_reserialization());
}

#[test]
fn handles_are_laid_out_in_twos_complement() {
    assert_eq!(handle_as_u32(-200), 0xffff_ff38);
    assert_eq!(handle_as_u32(-1), 0xffff_ffff);
    assert_eq!(handle_as_u32(0), 0);
    assert_eq!(handle_as_u32(i32::MAX), 0x7fff_ffff);
    assert_eq!(handle_as_u32(i32::MIN), 0x8000_0000);
    assert_eq!(handle_from_u32(0xffff_ff38), -200);
    assert_eq!(handle_from_u32(0x8000_0000), i32::MIN);
    assert_eq!(handle_from_u32(0x7fff_ffff), i32::MAX);
    assert_eq!(BigUint::from_raw_handle(-200).to_byte_writer(), vec![0xff, 0xff, 0xff, 0x38]);
    assert_eq!(BigUint::from_byte_reader(&[0xff, 0xff, 0xff, 0x38]).get_raw_handle(), -200);
    assert_eq!(ManagedBuffer::from_byte_reader(&[0, 0, 0, 5]).get_raw_handle(), 5);
    assert_eq!(ManagedAddress::from_raw_handle(-2).to_byte_writer(), vec![0xff, 0xff, 0xff, 0xfe]);
    assert_eq!(TokenIdentifier::from_byte_reader(&[0xff; 4]).get_raw_handle(), -1);
    assert_eq!(<BigUint as ManagedVecItem>::payload_size(), 4);
    assert!(!<BigUint as ManagedVecItem>::skips_reserialization());
    assert!(!<TokenIdentifier as ManagedVecItem>::skips_reserialization());
}

#[test]
fn items_are_read_and_written_one_after_the_other() {
    let mut arr = vec![0xaau8; 10];
    let mut index = 1;
    managed_vec_item_to_slice(&mut arr, &mut index, &0x0102_0304u32);
    assert_eq!(index, 5);
    managed_vec_item_to_slice(&mut arr, &mut index, &BigUint::from_raw_handle(-2));
    assert_eq!(index, 9);
    assert_eq!(arr, vec![0xaa, 1, 2, 3, 4, 0xff, 0xff, 0xff, 0xfe, 0xaa]);
    let mut index = 1;
    let x: u32 = managed_vec_item_from_slice(&arr, &mut index);
    let h: BigUint = managed_vec_item_from_slice(&arr, &mut index);
    assert_eq!((x, h.get_raw_handle(), index), (0x0102_0304, -2, 9));
}

#[test]
fn a_payment_is_laid_out_in_sixteen_bytes() {
    let payment = DctTokenPayment {
        token_type: DctTokenType::NonFungible,
        token_identifier: TokenIdentifier::from_raw_handle(-200),
        token_nonce: 0x0102,
        amount: BigUint::from_raw_handle(-199),
    };
    let written = payment.to_byte_writer();
    assert_eq!(
        written,
        vec![0xff, 0xff, 0xff, 0x38, 0, 0, 0, 0, 0, 0, 1, 2, 0xff, 0xff, 0xff, 0x39]
    );
    assert_eq!(<DctTokenPayment as ManagedVecItem>::payload_size(), 16);
    assert!(!<DctTokenPayment as ManagedVecItem>::skips_reserialization());
    let read = DctTokenPayment::from_byte_reader(&written);
    assert_eq!(read.token_identifier, payment.token_identifier);
    assert_eq!(read.token_nonce, 0x0102);
    assert_eq!(read.amount, payment.amount);
    // the kind is not in the bytes
    assert_eq!(read.token_type, DctTokenType::SemiFungible);
    let mut fungible = written.clone();
    fungible[10] = 0;
    fungible[11] = 0;
    assert_eq!(DctTokenPayment::from_byte_reader(&fungible).token_type, DctTokenType::Fungible);
}

#[test]
fn the_kind_of_a_payment_follows_token_instance_and_amount() {
    let mut arena = frame();
    let token = TokenIdentifier::from_dct_bytes(&mut arena, b"TOKEN-abcdef");
    let moax = TokenIdentifier::moax(&mut arena);
    let empty = TokenIdentifier::from_dct_bytes(&mut arena, b"");
    let zero = BigUint::zero(&mut arena);
    let one = BigUint::from_u64(&mut arena, 1);
    let two = BigUint::from_u64(&mut arena, 2);
    let kind = |t: TokenIdentifier, nonce: u64, amount: BigUint| {
        DctTokenPayment::new(&arena, t, nonce, amount).token_type
    };
    assert_eq!(kind(token, 0, one), DctTokenType::Fungible);
    assert_eq!(kind(token, 0, two), DctTokenType::Fungible);
    assert_eq!(kind(token, 7, one), DctTokenType::NonFungible);
    assert_eq!(kind(token, 7, two), DctTokenType::SemiFungible);
    assert_eq!(kind(token, 7, zero), DctTokenType::Invalid);
    assert_eq!(kind(token, 0, zero), DctTokenType::Invalid);
    assert_eq!(kind(moax, 0, two), DctTokenType::Invalid);
    assert_eq!(kind(empty, 0, two), DctTokenType::Invalid);
    let p = DctTokenPayment::new(&arena, token, 7, two);
    assert_eq!((p.token_identifier, p.token_nonce, p.amount), (token, 7, two));
    let m = p.into_multi_value();
    assert_eq!((m.token_identifier, m.token_nonce, m.amount), (token, 7, two));
    assert_eq!(DctTokenType::based_on_token_nonce(0), DctTokenType::Fungible);
    assert_eq!(DctTokenType::based_on_token_nonce(1), DctTokenType::NonFungible);
}

#[test]
fn no_payment_is_zero_units_of_the_native_currency() {
    let mut arena = frame();
    let p = DctTokenPayment::no_payment(&mut arena);
    assert_eq!(p.token_type, DctTokenType::Invalid);
    assert_eq!(p.token_nonce, 0);
    assert_eq!(p.token_identifier.handle, -200);
    assert_eq!(p.amount.handle, -199);
    assert_eq!(bytes(&arena, -200), b"MOAX".to_vec());
    assert_eq!(number(&arena, -199), 0);
    assert!(p.token_identifier.is_moax(&arena));
    assert!(!p.token_identifier.is_dct(&arena));
}

#[test]
fn typed_handles_name_what_was_allocated() {
    let mut arena = frame();
    let n = BigUint::from_big_nat(&mut arena, BigNat::from_u64(42));
    let b = ManagedBuffer::new_from_bytes(&mut arena, b"bytes");
    let a = ManagedAddress::from_address(&mut arena, &address(7));
    let z = ManagedAddress::zero(&mut arena);
    let t = TokenIdentifier::from_dct_bytes(&mut arena, b"TOKEN-abcdef");
    let m = TokenIdentifier::moax(&mut arena);
    assert_eq!(
        (n.handle, b.handle, a.handle, z.handle, t.handle, m.handle),
        (-200, -199, -198, -197, -196, -195)
    );
    assert_eq!(n.to_big_nat(&arena).to_u64(), Some(42));
    assert_eq!(b.to_vec(&arena), b"bytes".to_vec());
    assert_eq!(a.to_address(&arena), address(7));
    assert_eq!(z.to_address(&arena), address(0));
    assert_eq!(t.as_name(&arena), b"TOKEN-abcdef".to_vec());
    assert_eq!(t.to_dct_identifier(&arena), b"TOKEN-abcdef".to_vec());
    assert!(t.is_dct(&arena));
    assert_eq!(m.as_name(&arena), b"MOAX".to_vec());
    assert_eq!(m.to_dct_identifier(&arena), Vec::<u8>::new());
    assert_eq!(ManagedVec::from_raw_handle(-3).get_raw_handle(), -3);
}

#[test]
fn a_call_with_two_kinds_of_payment_has_no_call_value() {
    let e = CallValueWrapper::new(&input(1, &[(b"TOKEN-abcdef", 0, 5)])).err().unwrap();
    assert_eq!(e.status(), TxStatus::PaymentConflict);
    assert_eq!(e.message(), &b"call carries both a native amount and tokens".to_vec());
    assert!(input(1, &[(b"TOKEN-abcdef", 0, 5)]).has_payment_conflict());
    assert!(CallValueWrapper::new(&input(0, &[(b"TOKEN-abcdef", 0, 5)])).is_ok());
    assert!(CallValueWrapper::new(&input(1, &[])).is_ok());
    assert!(CallValueWrapper::new(&input(0, &[])).is_ok());
    assert!(!input(0, &[]).has_payment_conflict());
}

#[test]
fn native_payment_goes_to_its_reserved_slot() {
    let mut arena = frame();
    let cv = call_value(100, &[]);
    assert_eq!(cv.dct_num_transfers(), 0);
    let value = cv.moax_value(&mut arena);
    assert_eq!(value.handle, CALL_VALUE_MOAX);
    assert_eq!(number(&arena, CALL_VALUE_MOAX), 100);
    assert_eq!(arena.fresh_count(), 0);
    let single = cv.dct_value(&mut arena);
    assert_eq!(single.handle, CALL_VALUE_SINGLE_DCT);
    assert_eq!(number(&arena, CALL_VALUE_SINGLE_DCT), 0);
    let token = cv.token(&mut arena);
    assert_eq!(token.handle, -200);
    assert_eq!(bytes(&arena, -200), b"MOAX".to_vec());
    assert_eq!(cv.dct_token_nonce(), 0);
    assert_eq!(cv.dct_token_type(), DctTokenType::Fungible);
    let list = cv.all_dct_transfers(&mut arena);
    assert_eq!(list.handle, CALL_VALUE_MULTI_DCT);
    assert!(arena.read_handle_vec(CALL_VALUE_MULTI_DCT).is_empty());
    assert_eq!(arena.fresh_count(), 1);
}

#[test]
fn token_payment_goes_to_its_reserved_slot() {
    let mut arena = frame();
    let cv = call_value(0, &[(b"TOKEN-abcdef", 3, 5)]);
    assert_eq!(cv.dct_num_transfers(), 1);
    let value = cv.moax_value(&mut arena);
    assert_eq!(number(&arena, value.handle), 0);
    let single = cv.dct_value(&mut arena);
    assert_eq!(single.handle, CALL_VALUE_SINGLE_DCT);
    assert_eq!(number(&arena, CALL_VALUE_SINGLE_DCT), 5);
    let token = cv.token(&mut arena);
    assert_eq!(bytes(&arena, token.handle), b"TOKEN-abcdef".to_vec());
    assert_eq!(cv.dct_token_nonce(), 3);
    assert_eq!(cv.dct_token_type(), DctTokenType::NonFungible);
    let fungible = call_value(0, &[(b"TOKEN-abcdef", 0, 5)]);
    assert_eq!(fungible.dct_token_type(), DctTokenType::Fungible);
}

#[test]
fn all_transfers_are_laid_out_in_call_order() {
    let mut arena = frame();
    let before = arena.allocate();
    assert_eq!(before, -200);
    let cv = call_value(0, &[(b"BBB-222222", 2, 20), (b"AAA-111111", 0, 10), (b"BBB-222222", 2, 1)]);
    let list = cv.all_dct_transfers(&mut arena);
    assert_eq!(list.handle, CALL_VALUE_MULTI_DCT);
    let records = arena.read_handle_vec(list.handle).clone();
    assert_eq!(records, vec![-197, -194, -191]);
    let expected: [(&[u8], u64, u64); 3] =
        [(b"BBB-222222", 2, 20), (b"AAA-111111", 0, 10), (b"BBB-222222", 2, 1)];
    for (i, record) in records.iter().enumerate() {
        let payment = DctTokenPayment::from_byte_reader(&bytes(&arena, *record));
        assert_eq!(payment.token_identifier.handle, -199 + 3 * i as i32);
        assert_eq!(payment.amount.handle, -198 + 3 * i as i32);
        assert_eq!(bytes(&arena, payment.token_identifier.handle), expected[i].0.to_vec());
        assert_eq!(payment.token_nonce, expected[i].1);
        assert_eq!(number(&arena, payment.amount.handle), expected[i].2);
    }
    assert_eq!(arena.fresh_count(), 10);
}

#[test]
fn require_moax_refuses_tokens() {
    let mut arena = frame();
    let ok = call_value(100, &[]).require_moax(&mut arena).unwrap();
    assert_eq!(ok.handle, CALL_VALUE_MOAX);
    assert_eq!(number(&arena, CALL_VALUE_MOAX), 100);
    let e = call_value(0, &[(b"TOKEN-abcdef", 0, 5)]).require_moax(&mut arena).err().unwrap();
    assert_eq!(e.status(), TxStatus::NonPayableOrWrongToken);
    assert_eq!(e.message(), &b"function does not accept DCT payment".to_vec());
    assert_eq!(number(&arena, CALL_VALUE_MOAX), 100);
}

#[test]
fn require_dct_takes_one_transfer_of_the_right_token() {
    let mut arena = frame();
    let ok = call_value(0, &[(b"TOKEN-abcdef", 0, 5)])
        .require_dct(&mut arena, b"TOKEN-abcdef")
        .unwrap();
    assert_eq!(ok.handle, CALL_VALUE_SINGLE_DCT);
    assert_eq!(number(&arena, CALL_VALUE_SINGLE_DCT), 5);
    assert_eq!(bytes(&arena, MBUF_TEMPORARY_1), b"TOKEN-abcdef".to_vec());

    let wrong = call_value(0, &[(b"OTHER-123456", 0, 5)])
        .require_dct(&mut arena, b"TOKEN-abcdef")
        .err()
        .unwrap();
    assert_eq!(wrong.status(), TxStatus::NonPayableOrWrongToken);
    assert_eq!(wrong.message(), &b"bad call value token provided".to_vec());

    let none = call_value(100, &[]).require_dct(&mut arena, b"WANTED-000000").err().unwrap();
    assert_eq!(none.status(), TxStatus::NonPayableOrWrongToken);
    assert_eq!(none.message(), &b"function expects single DCT payment".to_vec());
    assert_eq!(bytes(&arena, MBUF_TEMPORARY_1), b"WANTED-000000".to_vec());

    let two = call_value(0, &[(b"TOKEN-abcdef", 0, 5), (b"TOKEN-abcdef", 0, 5)])
        .require_dct(&mut arena, b"TOKEN-abcdef")
        .err()
        .unwrap();
    assert_eq!(two.message(), &b"function expects single DCT payment".to_vec());
    assert_eq!(number(&arena, CALL_VALUE_SINGLE_DCT), 5);
}

#[test]
fn payment_of_any_kind_reads_the_same_way() {
    let mut arena = frame();
    let (amount, token) = call_value(100, &[]).payment_token_pair(&mut arena);
    assert_eq!((amount.handle, token.handle), (CALL_VALUE_MOAX, -200));
    assert_eq!(number(&arena, amount.handle), 100);
    assert_eq!(bytes(&arena, token.handle), b"MOAX".to_vec());

    let cv = call_value(0, &[(b"TOKEN-abcdef", 4, 1)]);
    let (amount, token) = cv.payment_token_pair(&mut arena);
    assert_eq!((amount.handle, token.handle), (CALL_VALUE_SINGLE_DCT, -199));
    assert_eq!(number(&arena, amount.handle), 1);
    assert_eq!(bytes(&arena, token.handle), b"TOKEN-abcdef".to_vec());

    let (token, nonce, amount) = cv.payment_as_tuple(&mut arena);
    assert_eq!((token.handle, nonce, amount.handle), (-198, 4, CALL_VALUE_SINGLE_DCT));

    let payment = cv.payment(&mut arena);
    assert_eq!(payment.token_type, DctTokenType::NonFungible);
    assert_eq!(payment.token_identifier.handle, -197);
    assert_eq!(payment.token_nonce, 4);
    assert_eq!(payment.amount.handle, CALL_VALUE_SINGLE_DCT);

    let native = call_value(100, &[]).payment(&mut arena);
    assert_eq!(native.token_type, DctTokenType::Invalid);
    assert_eq!(native.token_identifier.handle, -196);
    assert_eq!(native.amount.handle, CALL_VALUE_MOAX);
    assert_eq!(native.token_nonce, 0);
}
