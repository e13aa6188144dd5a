use hotspot_onboarding::error::OnboardError;
use hotspot_onboarding::key::hotspot_key;
use hotspot_onboarding::record::{
    find_record_address, record_address_seeds, IotHotspotInfoV0, RecordStore,
};

#[test]
fn the_key_is_the_last_segment_of_the_uri() {
    assert_eq!(hotspot_key("https://iot-metadata.example/ABCDEF123"), "ABCDEF123");
    assert_eq!(hotspot_key("a/b/c"), "c");
    assert_eq!(hotspot_key("/x"), "x");
}

#[test]
fn a_uri_without_a_slash_is_the_key() {
    assert_eq!(hotspot_key("ABCDEF123"), "ABCDEF123");
    assert_eq!(hotspot_key(""), "");
}

#[test]
fn a_uri_that_ends_in_a_slash_has_an_empty_key() {
    assert_eq!(hotspot_key("https://iot-metadata.example/"), "");
    assert_eq!(hotspot_key("/"), "");
}

#[test]
fn a_key_may_hold_any_characters() {
    assert_eq!(hotspot_key("https://é.example/clé-Ω-鍵"), "clé-Ω-鍵");
    assert_eq!(hotspot_key("é/"), "");
    assert_eq!(hotspot_key("鍵"), "鍵");
}

#[test]
fn the_key_is_what_splitting_at_slashes_leaves_last() {
    for uri in ["https://iot-metadata.example/ABCDEF123", "", "/", "a//b", "no-slash", "é/ü/"] {
        assert_eq!(hotspot_key(uri), uri.split("/").last().unwrap());
    }
}

#[test]
fn a_record_is_kept_at_the_known_address() {
    assert_eq!(
        find_record_address(&[9u8; 32], &[3u8; 32], "ABCDEF123"),
        Some((
            [
                247, 207, 22, 150, 249, 56, 226, 89, 65, 235, 1, 150, 191, 70, 214, 219, 83, 143,
                87, 131, 76, 32, 172, 205, 59, 85, 22, 237, 183, 150, 11, 82,
            ],
            255
        ))
    );
}

#[test]
fn a_record_is_kept_where_the_sdk_derives_it() {
    let program = anchor_lang::prelude::Pubkey::new_from_array([9u8; 32]);
    for key in ["ABCDEF123", "", "clé"] {
        for config in [[3u8; 32], [4u8; 32]] {
            let digest = anchor_lang::solana_program::hash::hash(key.as_bytes()).to_bytes();
            let (address, bump) = anchor_lang::prelude::Pubkey::find_program_address(
                &[b"iot_info", &config, &digest],
                &program,
            );
            assert_eq!(
                find_record_address(&[9u8; 32], &config, key),
                Some((address.to_bytes(), bump))
            );
        }
    }
}

#[test]
fn the_address_follows_the_configuration_the_key_and_the_program() {
    let base = find_record_address(&[9u8; 32], &[3u8; 32], "ABCDEF123");
    assert_eq!(find_record_address(&[9u8; 32], &[3u8; 32], "ABCDEF123"), base);
    assert_ne!(find_record_address(&[9u8; 32], &[4u8; 32], "ABCDEF123"), base);
    assert_ne!(find_record_address(&[9u8; 32], &[3u8; 32], "ABCDEF124"), base);
    assert_ne!(find_record_address(&[8u8; 32], &[3u8; 32], "ABCDEF123"), base);
}

#[test]
fn a_new_record_is_a_full_hotspot_without_location() {
    let record = IotHotspotInfoV0::new([1u8; 32], "ABCDEF123", 254);
    assert_eq!(
        record,
        IotHotspotInfoV0 {
            asset: [1u8; 32],
            hotspot_key: String::from("ABCDEF123"),
            bump_seed: 254,
            location: None,
            elevation: None,
            gain: None,
            is_full_hotspot: true,
            num_location_asserts: 0,
        }
    );
}

#[test]
fn a_new_store_keeps_nothing() {
    let store = RecordStore::new();
    assert!(!store.contains(&[1u8; 32]));
    assert_eq!(store.get(&[1u8; 32]), None);
}

#[test]
fn a_record_is_created_once() {
    let mut store = RecordStore::new();
    assert_eq!(store.create([1u8; 32], IotHotspotInfoV0::new([7u8; 32], "first", 255)), Ok(()));
    assert!(store.contains(&[1u8; 32]));
    assert_eq!(
        store.create([1u8; 32], IotHotspotInfoV0::new([8u8; 32], "second", 254)),
        Err(OnboardError::DuplicateRegistration)
    );
    assert_eq!(store.get(&[1u8; 32]), Some(&IotHotspotInfoV0::new([7u8; 32], "first", 255)));
}

#[test]
fn records_at_other_addresses_stay() {
    let mut store = RecordStore::new();
    let mut other = [1u8; 32];
    other[31] = 2;
    assert_eq!(store.create([1u8; 32], IotHotspotInfoV0::new([7u8; 32], "first", 255)), Ok(()));
    assert_eq!(store.create(other, IotHotspotInfoV0::new([8u8; 32], "second", 254)), Ok(()));
    assert_eq!(store.get(&[1u8; 32]), Some(&IotHotspotInfoV0::new([7u8; 32], "first", 255)));
    assert_eq!(store.get(&other), Some(&IotHotspotInfoV0::new([8u8; 32], "second", 254)));
    assert!(!store.contains(&[2u8; 32]));
}

#[test]
fn the_seeds_of_a_record_are_the_prefix_the_configuration_and_the_digest() {
    assert_eq!(
        record_address_seeds(&[3u8; 32], &[4u8; 32]),
        vec![b"iot_info".to_vec(), vec![3u8; 32], vec![4u8; 32]]
    );
}
