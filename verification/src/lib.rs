//! A deterministic, in-process model of an account ledger and of the way a
//! contract call is run against it.

pub mod arena;
pub mod assoc;
pub mod big_nat;
pub mod call_value;
pub mod dct;
pub mod dct_token_data;
pub mod dct_token_payment;
pub mod debug_api;
pub mod executor;
pub mod feature_contracts;
pub mod laws;
pub mod managed;
pub mod managed_vec_item;
pub mod payable_features;
pub mod second_contract;
pub mod token_identifier_features;
pub mod tx;
pub mod world;
