//! Addresses against those of the host.
use soroban_sdk::xdr::{FromXdr, ToXdr};
use soroban_sdk::{Bytes, Env};
use token_migration::types::{Address, AddressKind};

const HI: u128 = 0x0102030405060708090a0b0c0d0e0f10;
const LO: u128 = 0x1112131415161718191a1b1c1d1e1f20;

/// The account and the contract with those bits, as the host writes them for people.
const ACCOUNT: &str = "GAAQEAYEAUDAOCAJBIFQYDIOB4IBCEQTCQKRMFYYDENBWHA5DYPSABOV";
const CONTRACT: &str = "CAAQEAYEAUDAOCAJBIFQYDIOB4IBCEQTCQKRMFYYDENBWHA5DYPSBFLM";

#[test]
fn addresses_are_written_as_the_host_writes_them() {
    let env = Env::default();
    for (kind, text) in [(AddressKind::Account, ACCOUNT), (AddressKind::Contract, CONTRACT)] {
        let address = Address { kind, hi: HI, lo: LO };
        let on_host = soroban_sdk::Address::from_str(&env, text);
        let xdr: Vec<u8> = on_host.clone().to_xdr(&env).iter().collect();
        assert_eq!(address.to_xdr(), xdr);
        assert_eq!(Address::from_xdr(&xdr), Some(address));
        let bytes = Bytes::from_slice(&env, &address.to_xdr());
        assert_eq!(soroban_sdk::Address::from_xdr(&env, &bytes), Ok(on_host));
    }
}

#[test]
fn every_bit_of_an_address_comes_back() {
    for kind in [AddressKind::Account, AddressKind::Contract] {
        for (hi, lo) in [(0, 0), (u128::MAX, u128::MAX), (1, 0), (0, 1), (HI, LO), (1 << 127, 255)] {
            let address = Address { kind, hi, lo };
            assert_eq!(Address::from_xdr(&address.to_xdr()), Some(address));
        }
    }
}

#[test]
fn other_bytes_are_no_address() {
    assert_eq!(Address::from_xdr(&vec![]), None);
    let account = Address { kind: AddressKind::Account, hi: HI, lo: LO }.to_xdr();
    let contract = Address { kind: AddressKind::Contract, hi: HI, lo: LO }.to_xdr();
    assert_eq!(account.len(), 44);
    assert_eq!(contract.len(), 40);
    for (xdr, prefix) in [(account, 12usize), (contract, 8usize)] {
        assert_eq!(Address::from_xdr(&xdr[1..].to_vec()), None);
        let mut longer = xdr.clone();
        longer.push(0);
        assert_eq!(Address::from_xdr(&longer), None);
        for i in 0..prefix {
            let mut other = xdr.clone();
            other[i] ^= 1;
            assert_eq!(Address::from_xdr(&other), None);
        }
    }
}
