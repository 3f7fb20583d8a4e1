//! Tests of the four-character-code codec, the big-endian count parse,
//! the request builders and the name classification.

use smc_client::client::{extract_payload, is_keys_endpoint, u32_from_be_4};
use smc_client::error::SmcError;
use smc_client::fourcc::{fourcc_decode, fourcc_encode};
use smc_client::sensors::{classify_sensor_name, SensorDomain, FLOAT_TYPE};
use smc_client::wire::{KeyData, KeyInfo};

#[test]
fn fourcc_encoding_packs_big_endian() {
    assert_eq!(fourcc_encode("Tp01"), Some(0x54703031));
    assert_eq!(fourcc_encode("#KEY"), Some(0x234B4559));
    assert_eq!(fourcc_encode("flt "), Some(FLOAT_TYPE));
}

#[test]
fn fourcc_encoding_rejects_names_not_four_bytes_long() {
    assert_eq!(fourcc_encode(""), None);
    assert_eq!(fourcc_encode("abc"), None);
    assert_eq!(fourcc_encode("abcde"), None);
    // Five bytes: '°' encodes as two.
    assert_eq!(fourcc_encode("T°01"), None);
    // Three bytes: 'é' encodes as two.
    assert_eq!(fourcc_encode("é1"), None);
}

#[test]
fn fourcc_encoding_folds_bytes_not_characters() {
    // "é½" is two characters but exactly four UTF-8 bytes
    // (C3 A9 C2 BD), so it folds like any other four-byte name.
    assert_eq!(fourcc_encode("é½"), Some(0xC3A9C2BD));
}

#[test]
fn payload_extraction_takes_the_declared_prefix() {
    let mut bytes = [0u8; 32];
    for (i, b) in bytes.iter_mut().enumerate() {
        *b = i as u8;
    }
    assert_eq!(extract_payload(&bytes, 4), vec![0, 1, 2, 3]);
    assert_eq!(extract_payload(&bytes, 0), Vec::<u8>::new());
    let full = extract_payload(&bytes, 40);
    assert_eq!(full.len(), 32);
    assert_eq!(full[31], 31);
}

#[test]
fn fourcc_round_trips() {
    for name in ["Tp01", "Tg0D", "#KEY", "FAN0", "flt "] {
        let key = fourcc_encode(name).unwrap();
        assert_eq!(fourcc_decode(key), name);
    }
    assert_eq!(fourcc_decode(0x54703031), "Tp01");
}

#[test]
fn key_count_bytes_read_big_endian() {
    assert_eq!(u32_from_be_4(&vec![0x00, 0x00, 0x00, 0x2A]), 42);
    assert_eq!(u32_from_be_4(&vec![0x00, 0x00, 0x01, 0x00]), 256);
    assert_eq!(u32_from_be_4(&vec![0xDE, 0xAD, 0xBE, 0xEF]), 0xDEADBEEF);
}

#[test]
fn request_builders_set_selector_fields_only() {
    let by_index = KeyData::key_by_index_request(7);
    assert_eq!(by_index.data8, 8);
    assert_eq!(by_index.data32, 7);
    assert_eq!(by_index.key, 0);
    assert_eq!(by_index.result, 0);

    let info_req = KeyData::key_info_request(0x54703031);
    assert_eq!(info_req.data8, 9);
    assert_eq!(info_req.key, 0x54703031);
    assert_eq!(info_req.data32, 0);

    let info = KeyInfo {
        data_size: 4,
        data_type: FLOAT_TYPE,
        data_attributes: 0,
    };
    let value_req = KeyData::read_value_request(0x54703031, info);
    assert_eq!(value_req.data8, 5);
    assert_eq!(value_req.key, 0x54703031);
    assert_eq!(value_req.key_info, info);
    assert_eq!(value_req.bytes, [0u8; 32]);
}

#[test]
fn keys_endpoint_name_is_matched_exactly() {
    assert!(is_keys_endpoint("AppleSMCKeysEndpoint"));
    assert!(!is_keys_endpoint("AppleSMC"));
    assert!(!is_keys_endpoint("SMCEndpoint1"));
    assert!(!is_keys_endpoint(""));
}

#[test]
fn sensor_names_partition_by_prefix() {
    assert_eq!(classify_sensor_name("Tp01"), SensorDomain::Cpu);
    assert_eq!(classify_sensor_name("Tg0D"), SensorDomain::Gpu);
    assert_eq!(classify_sensor_name("FAN0"), SensorDomain::Other);
    assert_eq!(classify_sensor_name("T"), SensorDomain::Other);
    assert_eq!(classify_sensor_name(""), SensorDomain::Other);
}

#[test]
fn error_labels_name_each_failure() {
    assert_eq!(SmcError::KeyNotFound.label(), "SMC key not found");
    assert_eq!(SmcError::InvalidKey.label(), "SMC key must be 4 bytes long");
    assert_eq!(SmcError::Smc(5).label(), "SMC error");
    assert_eq!(SmcError::TransportError(-1).label(), "transport error");
}
