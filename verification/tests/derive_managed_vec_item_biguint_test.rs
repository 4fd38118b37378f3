use dharitri_sim::arena::Arena;
use dharitri_sim::managed::BigUint;
use dharitri_sim::managed_vec_item::{
    managed_vec_item_from_slice, managed_vec_item_to_slice, ManagedVecItem,
};

/// A struct of a typed handle and an integer, laid out field by field.
#[derive(PartialEq, Clone, Debug)]
pub struct ManagedStructWithBigUint {
    pub big_uint: BigUint,
    pub num: u32,
}

impl ManagedStructWithBigUint {
    fn payload_size() -> usize {
        <BigUint as ManagedVecItem>::payload_size() + <u32 as ManagedVecItem>::payload_size()
    }

    fn skips_reserialization() -> bool {
        <BigUint as ManagedVecItem>::skips_reserialization()
            && <u32 as ManagedVecItem>::skips_reserialization()
    }

    fn from_bytes(arr: &[u8]) -> Self {
        let mut index = 0;
        let big_uint = managed_vec_item_from_slice(arr, &mut index);
        let num = managed_vec_item_from_slice(arr, &mut index);
        ManagedStructWithBigUint { big_uint, num }
    }

    fn to_bytes(&self) -> Vec<u8> {
        let mut arr = vec![0u8; Self::payload_size()];
        let mut index = 0;
        managed_vec_item_to_slice(&mut arr, &mut index, &self.big_uint);
        managed_vec_item_to_slice(&mut arr, &mut index, &self.num);
        arr
    }
}

fn arena_with_frame() -> Arena {
    let mut arena = Arena::new();
    arena.push_frame();
    arena
}

#[test]
fn struct_with_numbers_static() {
    assert_eq!(ManagedStructWithBigUint::payload_size(), 8);
    assert!(!ManagedStructWithBigUint::skips_reserialization());
}

#[test]
fn managed_struct_to_bytes_writer() {
    let mut arena = arena_with_frame();
    let fortytwo = 42u64;
    let s = ManagedStructWithBigUint {
        big_uint: BigUint::from_u64(&mut arena, fortytwo),
        num: 0x12345,
    };

    let handle_bytes = s.big_uint.get_raw_handle().to_be_bytes();
    let expected = [0xff, 0xff, 0xff, handle_bytes[3], 0x00, 0x01, 0x23, 0x45];

    let arr = s.to_bytes();
    assert_eq!(arr, expected);
}

#[test]
fn managed_struct_from_bytes_reader() {
    let mut arena = arena_with_frame();
    let s = ManagedStructWithBigUint {
        big_uint: BigUint::from_u64(&mut arena, 42u64),
        num: 0x12345,
    };
    let handle_bytes = s.big_uint.get_raw_handle().to_be_bytes();
    let arr: [u8; 8] = [0xff, 0xff, 0xff, handle_bytes[3], 0x00, 0x01, 0x23, 0x45];

    let struct_from_bytes = ManagedStructWithBigUint::from_bytes(&arr);
    assert_eq!(s, struct_from_bytes);
}
