//! Behavioural tests of the SMC client against a scripted port that
//! implements the wire protocol.

use smc_client::client::{AppleSMCClient, SmcPort};
use smc_client::error::SmcError;
use smc_client::fourcc::{fourcc_decode, fourcc_encode};
use smc_client::sensors::{init_temperature_smc_client, partition_sensors};
use smc_client::wire::{KeyData, KeyInfo};

fn fourcc(s: &str) -> u32 {
    fourcc_encode(s).unwrap()
}

struct MockEntry {
    key: u32,
    info: KeyInfo,
    payload: Vec<u8>,
    readable: bool,
}

/// A scripted keys endpoint: a key directory with per-key metadata and
/// payload, answering the three selectors the way the kernel endpoint
/// does.  Counts the calls per selector so memoisation is observable.
struct MockPort {
    entries: Vec<MockEntry>,
    forced_code: i32,
    forced_result: Option<u8>,
    key_by_index_calls: usize,
    key_info_calls: usize,
    read_value_calls: usize,
}

impl MockPort {
    fn new(entries: Vec<MockEntry>) -> MockPort {
        MockPort {
            entries,
            forced_code: 0,
            forced_result: None,
            key_by_index_calls: 0,
            key_info_calls: 0,
            read_value_calls: 0,
        }
    }

    fn find(&self, key: u32) -> Option<&MockEntry> {
        self.entries.iter().find(|e| e.key == key)
    }
}

impl SmcPort for MockPort {
    fn call(&mut self, input: &KeyData) -> (i32, KeyData) {
        let mut reply = KeyData::zeroed();
        if self.forced_code != 0 {
            return (self.forced_code, reply);
        }
        if let Some(result) = self.forced_result {
            reply.result = result;
            return (0, reply);
        }
        match input.data8 {
            8 => {
                self.key_by_index_calls += 1;
                let index = input.data32 as usize;
                if index < self.entries.len() {
                    reply.key = self.entries[index].key;
                } else {
                    reply.result = 132;
                }
            }
            9 => {
                self.key_info_calls += 1;
                match self.find(input.key) {
                    Some(entry) => reply.key_info = entry.info,
                    None => reply.result = 132,
                }
            }
            5 => {
                self.read_value_calls += 1;
                match self.find(input.key) {
                    Some(entry) if entry.readable => {
                        for (i, b) in entry.payload.iter().take(32).enumerate() {
                            reply.bytes[i] = *b;
                        }
                    }
                    Some(_) => reply.result = 1,
                    None => reply.result = 132,
                }
            }
            _ => reply.result = 1,
        }
        (0, reply)
    }
}

fn entry(name: &str, size: u32, type_tag: &str, payload: Vec<u8>) -> MockEntry {
    MockEntry {
        key: fourcc(name),
        info: KeyInfo {
            data_size: size,
            data_type: fourcc(type_tag),
            data_attributes: 0,
        },
        payload,
        readable: true,
    }
}

fn key_count_entry(count: u32) -> MockEntry {
    entry("#KEY", 4, "ui32", count.to_be_bytes().to_vec())
}

#[test]
fn enumerate_empty_space() {
    let mut port = MockPort::new(vec![key_count_entry(0)]);
    let mut smc = AppleSMCClient::new();
    let names = smc.read_all_sensors(&mut port).unwrap();
    assert!(names.is_empty());
}

#[test]
fn enumerate_and_filter() {
    // Index 0 of the directory is the "#KEY" entry itself; the three
    // sensor keys sit at indices 1..4, so "#KEY" reports 4.
    let mut port = MockPort::new(vec![
        key_count_entry(4),
        entry("Tp01", 4, "flt ", vec![0x00, 0x00, 0x48, 0x42]),
        entry("Tg01", 4, "flt ", vec![0x00, 0x00, 0x20, 0x42]),
        entry("FAN0", 2, "ui16", vec![0x12, 0x34]),
    ]);
    let (_smc, cpu, gpu) = init_temperature_smc_client(&mut port).unwrap();
    assert_eq!(cpu, vec!["Tp01".to_string()]);
    assert_eq!(gpu, vec!["Tg01".to_string()]);
}

#[test]
fn float_payload_decodes() {
    let mut port = MockPort::new(vec![entry("Tp01", 4, "flt ", vec![0x00, 0x00, 0x48, 0x42])]);
    let mut smc = AppleSMCClient::new();
    let val = smc.read_val(&mut port, "Tp01").unwrap();
    assert_eq!(val.sensor_code_name, "Tp01");
    assert_eq!(val.sensor_data, vec![0x00, 0x00, 0x48, 0x42]);
    let celsius = f32::from_le_bytes([
        val.sensor_data[0],
        val.sensor_data[1],
        val.sensor_data[2],
        val.sensor_data[3],
    ]);
    assert_eq!(celsius, 50.0);
}

#[test]
fn missing_key_surfaces_key_not_found() {
    let mut port = MockPort::new(vec![]);
    let mut smc = AppleSMCClient::new();
    let err = smc.read_val(&mut port, "Zzzz").unwrap_err();
    assert_eq!(err, SmcError::KeyNotFound);
}

#[test]
fn key_info_is_memoised() {
    let mut port = MockPort::new(vec![entry("Tp01", 4, "flt ", vec![0, 0, 0, 0])]);
    let mut smc = AppleSMCClient::new();
    let first = smc.read_sensor_code_name_info(&mut port, "Tp01").unwrap();
    let second = smc.read_sensor_code_name_info(&mut port, "Tp01").unwrap();
    assert_eq!(first, second);
    assert_eq!(port.key_info_calls, 1);
}

#[test]
fn key_count_is_parsed_big_endian() {
    // 0x00 0x00 0x00 0x2A must read as 42, not as the little-endian
    // 704643072.
    let mut entries = vec![key_count_entry(42)];
    for i in 0..41u32 {
        entries.push(entry(&format!("K{:03}", i), 1, "ui8 ", vec![0]));
    }
    let mut port = MockPort::new(entries);
    let mut smc = AppleSMCClient::new();
    let names = smc.read_all_sensors(&mut port).unwrap();
    assert_eq!(port.key_by_index_calls, 42);
    assert_eq!(names.len(), 42);
    assert_eq!(names[0], "#KEY");
    assert_eq!(names[1], "K000");
}

#[test]
fn payload_is_sliced_to_data_size() {
    let mut port = MockPort::new(vec![entry("FAN0", 2, "ui16", vec![0x12, 0x34])]);
    let mut smc = AppleSMCClient::new();
    let val = smc.read_val(&mut port, "FAN0").unwrap();
    assert_eq!(val.sensor_data.len(), 2);
    assert_eq!(val.sensor_data, vec![0x12, 0x34]);
}

#[test]
fn transport_failure_surfaces_code() {
    let mut port = MockPort::new(vec![]);
    port.forced_code = -308;
    let mut smc = AppleSMCClient::new();
    let err = smc.read_val(&mut port, "Tp01").unwrap_err();
    assert_eq!(err, SmcError::TransportError(-308));
}

#[test]
fn smc_level_failure_surfaces_code() {
    let mut port = MockPort::new(vec![]);
    port.forced_result = Some(5);
    let mut smc = AppleSMCClient::new();
    let err = smc.read_sensor_code_name_info(&mut port, "Tp01").unwrap_err();
    assert_eq!(err, SmcError::Smc(5));
}

#[test]
fn invalid_key_is_rejected_without_an_exchange() {
    let mut port = MockPort::new(vec![]);
    let mut smc = AppleSMCClient::new();
    assert_eq!(
        smc.read_sensor_code_name_info(&mut port, "abc").unwrap_err(),
        SmcError::InvalidKey
    );
    assert_eq!(
        smc.read_val(&mut port, "toolong").unwrap_err(),
        SmcError::InvalidKey
    );
    assert_eq!(port.key_info_calls, 0);
    assert_eq!(port.read_value_calls, 0);
}

#[test]
fn key_by_index_returns_four_ascii_characters() {
    let mut port = MockPort::new(vec![entry("Tp01", 4, "flt ", vec![0, 0, 0, 0])]);
    let smc = AppleSMCClient::new();
    let name = smc.key_by_index(&mut port, 0).unwrap();
    assert_eq!(name, "Tp01");
    assert_eq!(name.len(), 4);
    assert!(name.is_ascii());
}

#[test]
fn enumeration_skips_unreadable_keys() {
    let mut broken = entry("Tw0P", 4, "flt ", vec![0, 0, 0, 0]);
    broken.readable = false;
    let mut port = MockPort::new(vec![
        key_count_entry(3),
        broken,
        entry("Tp01", 4, "flt ", vec![0, 0, 0, 0]),
    ]);
    let mut smc = AppleSMCClient::new();
    let names = smc.read_all_sensors(&mut port).unwrap();
    assert_eq!(names, vec!["#KEY".to_string(), "Tp01".to_string()]);
}

#[test]
fn oversize_metadata_is_bounded_by_the_payload_buffer() {
    // The reply buffer holds 32 bytes, so metadata claiming more than 32
    // yields at most 32.
    let mut port = MockPort::new(vec![entry("Tp0X", 40, "ch8*", vec![7u8; 40])]);
    let mut smc = AppleSMCClient::new();
    let val = smc.read_val(&mut port, "Tp0X").unwrap();
    assert_eq!(val.sensor_data.len(), 32);
    assert_eq!(val.sensor_data, vec![7u8; 32]);
}

#[test]
fn enumerate_propagates_directory_errors() {
    // "#KEY" claims three entries but the directory answers only one
    // more index; the failing index lookup aborts the sweep.
    let mut port = MockPort::new(vec![
        key_count_entry(3),
        entry("Tp01", 4, "flt ", vec![0, 0, 0, 0]),
    ]);
    let mut smc = AppleSMCClient::new();
    let err = smc.read_all_sensors(&mut port).unwrap_err();
    assert_eq!(err, SmcError::KeyNotFound);
}

#[test]
fn index_sweep_is_bounded_by_the_count() {
    let mut port = MockPort::new(vec![
        entry("Aaa0", 1, "ui8 ", vec![1]),
        entry("Aaa1", 1, "ui8 ", vec![2]),
        entry("Aaa2", 1, "ui8 ", vec![3]),
    ]);
    let mut smc = AppleSMCClient::new();
    let names = smc.key_names_up_to(&mut port, 2).unwrap();
    assert_eq!(names, vec!["Aaa0".to_string(), "Aaa1".to_string()]);
    assert_eq!(port.key_by_index_calls, 2);
}

#[test]
fn four_byte_names_reach_the_kernel() {
    // "é½" is four bytes, so like the original the client folds the
    // bytes and asks the kernel, which here does not know the key.
    let mut port = MockPort::new(vec![]);
    let mut smc = AppleSMCClient::new();
    let err = smc
        .read_sensor_code_name_info(&mut port, "é½")
        .unwrap_err();
    assert_eq!(err, SmcError::KeyNotFound);
    assert_eq!(port.key_info_calls, 1);
}

#[test]
fn sweep_with_zero_count_touches_nothing() {
    let mut port = MockPort::new(vec![entry("Tp01", 4, "flt ", vec![0, 0, 0, 0])]);
    let mut smc = AppleSMCClient::new();
    let names = smc.key_names_up_to(&mut port, 0).unwrap();
    assert!(names.is_empty());
    assert_eq!(port.key_by_index_calls, 0);
    assert_eq!(port.key_info_calls, 0);
    assert_eq!(port.read_value_calls, 0);
}

#[test]
fn partition_keeps_exactly_the_matching_float_sensors() {
    let mut broken = entry("Tp99", 4, "flt ", vec![0, 0, 0, 0]);
    broken.readable = false;
    let mut port = MockPort::new(vec![
        entry("Tp01", 4, "flt ", vec![0, 0, 0, 0]),
        entry("Tg01", 4, "flt ", vec![0, 0, 0, 0]),
        entry("FAN0", 2, "ui16", vec![1, 2]),
        broken,
        entry("Tp02", 4, "flt ", vec![0, 0, 0, 0]),
    ]);
    let mut smc = AppleSMCClient::new();
    let names: Vec<String> = ["Tp01", "Tg01", "FAN0", "Tp99", "Tp02", "Zzzz"]
        .iter()
        .map(|s| s.to_string())
        .collect();
    let (cpu, gpu) = partition_sensors(&mut smc, &mut port, &names);
    assert_eq!(cpu, vec!["Tp01".to_string(), "Tp02".to_string()]);
    assert_eq!(gpu, vec!["Tg01".to_string()]);
}

#[test]
fn decoded_name_round_trips_through_the_wire_form() {
    let key = fourcc("Tg0D");
    assert_eq!(key, 0x54673044);
    assert_eq!(fourcc_decode(key), "Tg0D");
}
