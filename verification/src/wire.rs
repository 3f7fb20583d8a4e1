//! The wire record exchanged with the SMC keys endpoint.
//!
//! One fixed-layout record is submitted in full and returned in full by a
//! single structured-method call on the connection, always with method
//! selector [`SMC_METHOD_SELECTOR`].  The operation performed is chosen by
//! the `data8` discriminator.  This module holds the record as plain data
//! together with constructors for the three requests the client issues; an
//! embedding marshals it to the kernel's packed layout.

use vstd::prelude::*;

verus! {

/// The structured-method selector of every call to the keys endpoint.
pub const SMC_METHOD_SELECTOR: u32 = 2;

/// `data8` discriminator: read the value of `key` (the request must carry
/// the key's metadata in `key_info`).
pub const SELECTOR_READ_VALUE: u8 = 5;

/// `data8` discriminator: read the key at index `data32`; the reply's `key`
/// holds the answer.
pub const SELECTOR_KEY_BY_INDEX: u8 = 8;

/// `data8` discriminator: read the metadata of `key`; the reply's
/// `key_info` holds the answer.
pub const SELECTOR_KEY_INFO: u8 = 9;

/// Reply `result` byte meaning the requested key does not exist.
pub const RESULT_KEY_NOT_FOUND: u8 = 132;

/// The version block of the wire record.
#[derive(Clone, Copy, Debug, PartialEq, Eq, Structural)]
pub struct KeyDataVer {
    pub major: u8,
    pub minor: u8,
    pub build: u8,
    pub reserved: u8,
    pub release: u16,
}

/// The power-limit block of the wire record.
#[derive(Clone, Copy, Debug, PartialEq, Eq, Structural)]
pub struct PLimitData {
    pub version: u16,
    pub length: u16,
    pub cpu_p_limit: u32,
    pub gpu_p_limit: u32,
    pub mem_p_limit: u32,
}

/// Metadata of one key: how many payload bytes it carries, a
/// four-character code naming the encoding, and an opaque flag byte.
/// Immutable once observed.
#[derive(Clone, Copy, Debug, PartialEq, Eq, Structural)]
pub struct KeyInfo {
    pub data_size: u32,
    pub data_type: u32,
    pub data_attributes: u8,
}

/// The full request/response envelope.  A request is populated by the
/// client; a reply is written back by the kernel.
#[derive(Clone, Copy, Debug)]
pub struct KeyData {
    /// The four-character key, big-endian within the 32-bit word.
    pub key: u32,
    pub vers: KeyDataVer,
    pub p_limit_data: PLimitData,
    pub key_info: KeyInfo,
    /// Kernel status of the operation: 0 is success,
    /// [`RESULT_KEY_NOT_FOUND`] means the key does not exist.
    pub result: u8,
    pub status: u8,
    /// The selector discriminator choosing the operation.
    pub data8: u8,
    /// The selector operand (the key index, for key-by-index).
    pub data32: u32,
    /// The payload buffer; a reply to a value read carries the value here.
    pub bytes: [u8; 32],
}

/// An all-zero version block.
pub open spec fn spec_zero_ver() -> KeyDataVer {
    KeyDataVer { major: 0, minor: 0, build: 0, reserved: 0, release: 0 }
}

/// An all-zero power-limit block.
pub open spec fn spec_zero_p_limit() -> PLimitData {
    PLimitData { version: 0, length: 0, cpu_p_limit: 0, gpu_p_limit: 0, mem_p_limit: 0 }
}

/// All-zero key metadata.
pub open spec fn spec_zero_key_info() -> KeyInfo {
    KeyInfo { data_size: 0, data_type: 0, data_attributes: 0 }
}

/// The all-zero wire record, from which every request starts.
pub open spec fn spec_zeroed_key_data() -> KeyData {
    KeyData {
        key: 0,
        vers: spec_zero_ver(),
        p_limit_data: spec_zero_p_limit(),
        key_info: spec_zero_key_info(),
        result: 0,
        status: 0,
        data8: 0,
        data32: 0,
        bytes: vstd::array::spec_array_fill_for_copy_type::<u8, 32>(0u8),
    }
}

/// The request asking for the key at the given directory index.
pub open spec fn spec_key_by_index_request(index: u32) -> KeyData {
    KeyData { data8: SELECTOR_KEY_BY_INDEX, data32: index, ..spec_zeroed_key_data() }
}

/// The request asking for the metadata of the given key.
pub open spec fn spec_key_info_request(key: u32) -> KeyData {
    KeyData { data8: SELECTOR_KEY_INFO, key, ..spec_zeroed_key_data() }
}

/// The request asking for the value of the given key, framed by the key's
/// metadata (the kernel marshals `data_size` payload bytes back).
pub open spec fn spec_read_value_request(key: u32, info: KeyInfo) -> KeyData {
    KeyData { data8: SELECTOR_READ_VALUE, key, key_info: info, ..spec_zeroed_key_data() }
}

impl KeyInfo {
    /// All-zero key metadata.
    pub fn zeroed() -> (r: KeyInfo)
        ensures
            r == spec_zero_key_info(),
    {
        KeyInfo { data_size: 0, data_type: 0, data_attributes: 0 }
    }
}

impl KeyData {
    /// The all-zero wire record.
    pub fn zeroed() -> (r: KeyData)
        ensures
            r == spec_zeroed_key_data(),
    {
        KeyData {
            key: 0,
            vers: KeyDataVer { major: 0, minor: 0, build: 0, reserved: 0, release: 0 },
            p_limit_data: PLimitData {
                version: 0,
                length: 0,
                cpu_p_limit: 0,
                gpu_p_limit: 0,
                mem_p_limit: 0,
            },
            key_info: KeyInfo { data_size: 0, data_type: 0, data_attributes: 0 },
            result: 0,
            status: 0,
            data8: 0,
            data32: 0,
            bytes: [0u8; 32],
        }
    }

    /// Builds the key-by-index request for the given directory index.
    pub fn key_by_index_request(index: u32) -> (r: KeyData)
        ensures
            r == spec_key_by_index_request(index),
    {
        let mut r = KeyData::zeroed();
        r.data8 = SELECTOR_KEY_BY_INDEX;
        r.data32 = index;
        r
    }

    /// Builds the key-info request for the given key.
    pub fn key_info_request(key: u32) -> (r: KeyData)
        ensures
            r == spec_key_info_request(key),
    {
        let mut r = KeyData::zeroed();
        r.data8 = SELECTOR_KEY_INFO;
        r.key = key;
        r
    }

    /// Builds the value-read request for the given key and its metadata.
    pub fn read_value_request(key: u32, info: KeyInfo) -> (r: KeyData)
        ensures
            r == spec_read_value_request(key, info),
    {
        let mut r = KeyData::zeroed();
        r.data8 = SELECTOR_READ_VALUE;
        r.key = key;
        r.key_info = info;
        r
    }
}

} // verus!
