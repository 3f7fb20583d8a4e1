//! The SMC key-space client.
//!
//! The client issues three protocol operations over a transport — key by
//! index, key info, key read — interprets reply status bytes into the error
//! taxonomy, memoises key metadata, and enumerates the key directory.  The
//! transport itself is the [`SmcPort`] trait: one blocking exchange of a
//! wire record.  Every contract below holds for any port, however it
//! behaves; what depends on the port's answers is stated existentially.

use std::collections::HashMap;
use vstd::prelude::*;

use crate::error::SmcError;
use crate::fourcc::fourcc_chars;
use crate::fourcc::fourcc_decode;
use crate::fourcc::fourcc_encode;
use crate::fourcc::fourcc_val;
use crate::fourcc::is_valid_key;
use crate::fourcc::key_bytes;
use crate::wire::KeyData;
use crate::wire::KeyInfo;
use crate::wire::RESULT_KEY_NOT_FOUND;

verus! {

/// One blocking structured-method exchange with the SMC keys endpoint.
///
/// An embedding implements this with the kernel connection; a test
/// implements it with a script.  `call` submits the request record and
/// returns the transport status code together with the reply record
/// (meaningful only when the status is zero).
pub trait SmcPort {
    fn call(&mut self, input: &KeyData) -> (i32, KeyData);
}

/// How one exchange is read: a non-zero transport status is a transport
/// error; a reply result byte of 132 means the key does not exist; any
/// other non-zero result byte is an SMC-level error; otherwise the reply
/// stands.
pub open spec fn spec_interpret(code: i32, reply: KeyData) -> Result<KeyData, SmcError> {
    if code != 0 {
        Err(SmcError::TransportError(code))
    } else if reply.result == RESULT_KEY_NOT_FOUND {
        Err(SmcError::KeyNotFound)
    } else if reply.result != 0 {
        Err(SmcError::Smc(reply.result))
    } else {
        Ok(reply)
    }
}

/// The errors a single exchange can produce.
pub open spec fn is_exchange_error(e: SmcError) -> bool {
    e is TransportError || e is KeyNotFound || e is Smc
}

/// The value of one sensor: its four-character key name and its raw
/// payload bytes.  Interpreting the bytes is the caller's business.
#[derive(Clone, Debug)]
pub struct TempSensorVal {
    pub sensor_code_name: String,
    pub sensor_data: Vec<u8>,
}

/// Metadata already observed is never dropped and never changed: the key
/// schema is stable for the life of a client, so the cache only grows.
pub open spec fn cache_preserved(before: Map<u32, KeyInfo>, after: Map<u32, KeyInfo>) -> bool {
    forall|k: u32| #[trigger]
        before.contains_key(k) ==> after.contains_key(k) && after[k] == before[k]
}

/// A cached KeyInfo is returned byte-identical for as long as the client
/// lives: once a key is in a cache, any later cache that preserves it
/// still maps the key to the very same metadata record.
pub proof fn lemma_cached_info_stable(
    before: Map<u32, KeyInfo>,
    after: Map<u32, KeyInfo>,
    k: u32,
)
    requires
        cache_preserved(before, after),
        before.contains_key(k),
    ensures
        after.contains_key(k),
        after[k] == before[k],
{
}

/// How many payload bytes a value read returns for a key whose metadata
/// says `data_size`: the declared size, bounded by the 32-byte payload
/// buffer.
pub open spec fn payload_len(data_size: u32) -> int {
    if data_size <= 32 {
        data_size as int
    } else {
        32
    }
}

/// Slices a reply's 32-byte payload buffer to the declared size, bounded
/// by the buffer: the result is exactly the first `payload_len(size)`
/// bytes.
pub fn extract_payload(bytes: &[u8; 32], size: u32) -> (v: Vec<u8>)
    ensures
        v@ == bytes@.take(payload_len(size)),
{
    let n: usize = if size <= 32 {
        size as usize
    } else {
        32
    };
    let mut v: Vec<u8> = Vec::new();
    let mut i: usize = 0;
    while i < n
        invariant
            i <= n,
            n == payload_len(size),
            v@.len() == i,
            forall|j: int| 0 <= j < i ==> v@[j] == bytes@[j],
        decreases n - i,
    {
        v.push(bytes[i]);
        i += 1;
    }
    proof {
        assert(v@ =~= bytes@.take(payload_len(size)));
    }
    v
}

/// The views of a vector of names, one character sequence per name.
pub open spec fn views_of(names: Seq<String>) -> Seq<Seq<char>> {
    names.map_values(|n: String| n@)
}

/// The shape of a sweep over a directory of `count` indices: the output
/// picks, in order, a strictly ascending subset of the directory's
/// `count` answers.  In particular the output is never longer than
/// `count`.
pub open spec fn ascending_sweep(names: Seq<String>, count: u32) -> bool {
    exists|all: Seq<Seq<char>>, kept: Seq<int>|
        all.len() == count && is_ascending_selection(views_of(names), all, kept)
}

/// `out` picks entries of `all` at strictly ascending positions: the shape
/// of the continue-on-error sweep that enumeration performs over the
/// index range.
pub open spec fn is_ascending_selection(
    out: Seq<Seq<char>>,
    all: Seq<Seq<char>>,
    kept: Seq<int>,
) -> bool {
    &&& out.len() == kept.len()
    &&& forall|j: int| 0 <= j < kept.len() ==> 0 <= #[trigger] kept[j] < all.len()
    &&& forall|i: int, j: int| 0 <= i < j < kept.len() ==> #[trigger] kept[i] < #[trigger] kept[j]
    &&& forall|j: int| 0 <= j < kept.len() ==> #[trigger] out[j] == all[kept[j]]
}

/// The order law of enumeration: an ascending selection out of
/// pairwise-distinct entries has no duplicates, and is never longer than
/// what it selects from.  This is conditional on the directory answering
/// distinct names at distinct indices, which no contract on an arbitrary
/// transport can supply.
pub proof fn lemma_ascending_selection_distinct(
    out: Seq<Seq<char>>,
    all: Seq<Seq<char>>,
    kept: Seq<int>,
)
    requires
        is_ascending_selection(out, all, kept),
        forall|i: int, j: int| 0 <= i < j < all.len() ==> #[trigger] all[i] != #[trigger] all[j],
    ensures
        out.len() <= all.len(),
        forall|i: int, j: int| 0 <= i < j < out.len() ==> #[trigger] out[i] != #[trigger] out[j],
{
    assert forall|i: int, j: int| 0 <= i < j < out.len() implies #[trigger] out[i] != #[trigger] out[j] by {
        assert(kept[i] < kept[j]);
        assert(all[kept[i]] != all[kept[j]]);
    }
    if out.len() > all.len() {
        lemma_ascending_selection_bounded(kept, all.len() as int);
    }
}

proof fn lemma_ascending_selection_bounded(kept: Seq<int>, bound: int)
    requires
        bound >= 0,
        forall|j: int| 0 <= j < kept.len() ==> 0 <= #[trigger] kept[j] < bound,
        forall|i: int, j: int| 0 <= i < j < kept.len() ==> #[trigger] kept[i] < #[trigger] kept[j],
    ensures
        kept.len() <= bound,
    decreases kept.len(),
{
    if kept.len() > 0 {
        let last = kept.last();
        assert(kept[kept.len() - 1] == last);
        assert(0 <= last < bound);
        let prefix = kept.drop_last();
        assert forall|j: int| 0 <= j < prefix.len() implies 0 <= #[trigger] prefix[j] < last by {
            assert(prefix[j] == kept[j]);
            assert(kept[j] < kept[kept.len() - 1]);
        }
        assert forall|i: int, j: int| 0 <= i < j < prefix.len() implies #[trigger] prefix[i]
            < #[trigger] prefix[j] by {
            assert(prefix[i] == kept[i] && prefix[j] == kept[j]);
        }
        lemma_ascending_selection_bounded(prefix, last);
        assert(kept.len() == prefix.len() + 1);
    }
}

/// The count held by the reserved `"#KEY"` entry: its first four payload
/// bytes read as a big-endian 32-bit integer.
pub open spec fn spec_be_u32(b: Seq<u8>) -> u32
    recommends
        b.len() >= 4,
{
    ((b[0] as u32) << 24) | ((b[1] as u32) << 16) | ((b[2] as u32) << 8) | (b[3] as u32)
}

/// Reads the first four bytes as a big-endian 32-bit integer.
pub fn u32_from_be_4(b: &Vec<u8>) -> (r: u32)
    requires
        b@.len() >= 4,
    ensures
        r == spec_be_u32(b@),
{
    ((b[0] as u32) << 24u32) | ((b[1] as u32) << 16u32) | ((b[2] as u32) << 8u32) | (b[3] as u32)
}

/// Whether a registry entry is the SMC sub-service that answers
/// key-directory and key-read calls (the `AppleSMC` service tree holds
/// several endpoints; only this one serves key queries).
pub fn is_keys_endpoint(name: &str) -> (r: bool)
    ensures
        r == (name@ == "AppleSMCKeysEndpoint"@),
{
    let target: String = "AppleSMCKeysEndpoint".to_owned();
    let candidate: String = name.to_owned();
    candidate.eq(&target)
}

/// The SMC key-space client: the key-metadata cache and the protocol
/// logic.  The kernel connection that carries the exchanges lives in the
/// port handed to each operation.
pub struct AppleSMCClient {
    sensor_names_map: HashMap<u32, KeyInfo>,
}

impl AppleSMCClient {
    /// The metadata observed so far, as a map from 32-bit key to its
    /// metadata record.
    pub closed spec fn cache(&self) -> Map<u32, KeyInfo> {
        self.sensor_names_map@
    }

    /// A fresh client with nothing cached.
    pub fn new() -> (c: Self)
        ensures
            c.cache() == Map::<u32, KeyInfo>::empty(),
    {
        AppleSMCClient { sensor_names_map: HashMap::new() }
    }

    /// One exchange with the endpoint, interpreted: the result is exactly
    /// the reading of some transport outcome, so a success always carries
    /// a reply whose result byte is zero.
    pub fn read<P: SmcPort>(&self, port: &mut P, input: &KeyData) -> (r: Result<
        KeyData,
        SmcError,
    >)
        ensures
            exists|code: i32, reply: KeyData| r == #[trigger] spec_interpret(code, reply),
            r matches Ok(reply) ==> reply.result == 0,
            r matches Err(e) ==> is_exchange_error(e),
    {
        let (code, reply) = port.call(input);
        let r: Result<KeyData, SmcError> = if code != 0 {
            Err(SmcError::TransportError(code))
        } else if reply.result == RESULT_KEY_NOT_FOUND {
            Err(SmcError::KeyNotFound)
        } else if reply.result != 0 {
            Err(SmcError::Smc(reply.result))
        } else {
            Ok(reply)
        };
        proof {
            assert(r == spec_interpret(code, reply));
        }
        r
    }

    /// Looks up the key name at the given directory index.  A success is
    /// always the 4-character form of some 32-bit key, most-significant
    /// byte first.
    pub fn key_by_index<P: SmcPort>(&self, port: &mut P, index: u32) -> (r: Result<
        String,
        SmcError,
    >)
        ensures
            r matches Ok(name) ==> name@.len() == 4 && (exists|k: u32|
                name@ == #[trigger] fourcc_chars(k)),
            r matches Ok(name) ==> forall|i: int|
                0 <= i < 4 ==> ((#[trigger] name@[i]) as u32) < 256,
            r matches Err(e) ==> is_exchange_error(e),
    {
        let ival = KeyData::key_by_index_request(index);
        match self.read(port, &ival) {
            Ok(oval) => {
                let name = fourcc_decode(oval.key);
                proof {
                    assert(name@ == fourcc_chars(oval.key));
                    crate::fourcc::lemma_fourcc_chars_byte_range(oval.key);
                }
                Ok(name)
            },
            Err(e) => Err(e),
        }
    }

    /// Reads the metadata of the named key, memoised: a name already
    /// observed is answered from the cache with the transport left
    /// untouched, and a fresh answer is cached before it is returned.
    /// The cache never loses or changes an entry.
    pub fn read_sensor_code_name_info<P: SmcPort>(
        &mut self,
        port: &mut P,
        sensor_code_name: &str,
    ) -> (r: Result<KeyInfo, SmcError>)
        ensures
            cache_preserved(old(self).cache(), final(self).cache()),
            !is_valid_key(key_bytes(sensor_code_name@)) ==> r == Err::<KeyInfo, SmcError>(
                SmcError::InvalidKey,
            ) && final(self).cache() == old(self).cache() && *final(port) == *old(port),
            is_valid_key(key_bytes(sensor_code_name@)) ==> {
                let k = fourcc_val(key_bytes(sensor_code_name@));
                match r {
                    Ok(info) => {
                        &&& final(self).cache().contains_key(k)
                        &&& final(self).cache()[k] == info
                        &&& (old(self).cache().contains_key(k) ==> info == old(self).cache()[k]
                            && final(self).cache() == old(self).cache() && *final(port) == *old(
                            port,
                        ))
                        &&& (!old(self).cache().contains_key(k) ==> final(self).cache() == old(
                            self,
                        ).cache().insert(k, info))
                    },
                    Err(e) => {
                        &&& final(self).cache() == old(self).cache()
                        &&& !old(self).cache().contains_key(k)
                        &&& is_exchange_error(e)
                    },
                }
            },
    {
        let key = match fourcc_encode(sensor_code_name) {
            Some(k) => k,
            None => {
                return Err(SmcError::InvalidKey);
            },
        };
        let cached = match self.sensor_names_map.get(&key) {
            Some(ki) => Some(*ki),
            None => None,
        };
        match cached {
            Some(ki) => Ok(ki),
            None => {
                let ival = KeyData::key_info_request(key);
                match self.read(port, &ival) {
                    Ok(oval) => {
                        self.sensor_names_map.insert(key, oval.key_info);
                        Ok(oval.key_info)
                    },
                    Err(e) => Err(e),
                }
            },
        }
    }

    /// Reads the raw payload of the named key: obtains (or recalls) the
    /// key's metadata, issues the value read framed by it, and returns the
    /// payload sliced to the declared size (bounded by the 32-byte
    /// buffer).
    pub fn read_val<P: SmcPort>(&mut self, port: &mut P, sensor_code_name: &str) -> (r: Result<
        TempSensorVal,
        SmcError,
    >)
        ensures
            cache_preserved(old(self).cache(), final(self).cache()),
            !is_valid_key(key_bytes(sensor_code_name@)) ==> r == Err::<TempSensorVal, SmcError>(
                SmcError::InvalidKey,
            ) && final(self).cache() == old(self).cache(),
            is_valid_key(key_bytes(sensor_code_name@)) ==> {
                let k = fourcc_val(key_bytes(sensor_code_name@));
                &&& (old(self).cache().contains_key(k) ==> final(self).cache() == old(
                    self,
                ).cache())
                &&& (final(self).cache() == old(self).cache() || (final(self).cache().contains_key(
                    k,
                ) && final(self).cache() == old(self).cache().insert(k, final(self).cache()[k])))
                &&& match r {
                    Ok(v) => {
                        &&& v.sensor_code_name@ == sensor_code_name@
                        &&& final(self).cache().contains_key(k)
                        &&& v.sensor_data@.len() == payload_len(final(self).cache()[k].data_size)
                        &&& (final(self).cache()[k].data_size <= 32 ==> v.sensor_data@.len()
                            == final(self).cache()[k].data_size)
                    },
                    Err(e) => is_exchange_error(e),
                }
            },
    {
        let info = match self.read_sensor_code_name_info(port, sensor_code_name) {
            Ok(info) => info,
            Err(e) => {
                return Err(e);
            },
        };
        let key = match fourcc_encode(sensor_code_name) {
            Some(k) => k,
            None => {
                return Err(SmcError::InvalidKey);
            },
        };
        let ival = KeyData::read_value_request(key, info);
        let oval = match self.read(port, &ival) {
            Ok(o) => o,
            Err(e) => {
                return Err(e);
            },
        };
        let sensor_data = extract_payload(&oval.bytes, info.data_size);
        Ok(TempSensorVal { sensor_code_name: sensor_code_name.to_owned(), sensor_data })
    }

    /// Looks up the key names at directory indices `0..count`, keeping
    /// each name whose value can actually be read and skipping the rest:
    /// the continue-on-error sweep of the discovery phase.  A success is
    /// an ascending-index selection out of the directory's `count`
    /// answers, so it is never longer than `count`; a count of zero keeps
    /// nothing and touches nothing.
    pub fn key_names_up_to<P: SmcPort>(&mut self, port: &mut P, count: u32) -> (r: Result<
        Vec<String>,
        SmcError,
    >)
        ensures
            cache_preserved(old(self).cache(), final(self).cache()),
            count == 0 ==> (r matches Ok(names) && names@.len() == 0 && *final(self) == *old(
                self,
            ) && *final(port) == *old(port)),
            r matches Ok(names) ==> names@.len() <= count,
            r matches Ok(names) ==> ascending_sweep(names@, count),
            r matches Ok(names) ==> forall|j: int|
                0 <= j < names@.len() ==> (#[trigger] names@[j])@.len() == 4,
            r matches Err(e) ==> is_exchange_error(e),
    {
        let mut sensor_code_names: Vec<String> = Vec::new();
        let ghost mut all: Seq<Seq<char>> = Seq::empty();
        let ghost mut kept: Seq<int> = Seq::empty();
        if count == 0 {
            proof {
                assert(is_ascending_selection(views_of(sensor_code_names@), all, kept));
                assert(ascending_sweep(sensor_code_names@, count));
            }
            return Ok(sensor_code_names);
        }
        let mut i: u32 = 0;
        while i < count
            invariant
                i <= count,
                all.len() == i as int,
                is_ascending_selection(views_of(sensor_code_names@), all, kept),
                forall|j: int|
                    0 <= j < sensor_code_names@.len() ==> (
                    #[trigger] sensor_code_names@[j])@.len() == 4,
                cache_preserved(old(self).cache(), self.cache()),
            decreases count - i,
        {
            let name = match self.key_by_index(port, i) {
                Ok(nm) => nm,
                Err(e) => {
                    return Err(e);
                },
            };
            let ghost prev_all = all;
            let ghost prev_kept = kept;
            let ghost prev_names = sensor_code_names@;
            proof {
                all = prev_all.push(name@);
            }
            match self.read_val(port, name.as_str()) {
                Ok(v) => {
                    proof {
                        kept = prev_kept.push(i as int);
                    }
                    sensor_code_names.push(v.sensor_code_name);
                    proof {
                        assert(v.sensor_code_name@ == name@);
                        assert(views_of(sensor_code_names@) =~= views_of(prev_names).push(name@));
                        assert forall|j: int| 0 <= j < kept.len() implies 0 <= #[trigger] kept[j]
                            < all.len() by {
                            if j < prev_kept.len() {
                                assert(kept[j] == prev_kept[j]);
                            }
                        }
                        assert forall|j: int| 0 <= j < kept.len() implies #[trigger] views_of(
                            sensor_code_names@,
                        )[j] == all[kept[j]] by {
                            if j < prev_kept.len() {
                                assert(kept[j] == prev_kept[j]);
                                assert(views_of(sensor_code_names@)[j] == views_of(prev_names)[j]);
                                assert(all[kept[j]] == prev_all[kept[j]]);
                            } else {
                                assert(kept[j] == i as int);
                                assert(all[i as int] == name@);
                            }
                        }
                    }
                },
                Err(_) => {
                    proof {
                        assert forall|j: int| 0 <= j < kept.len() implies #[trigger] views_of(
                            sensor_code_names@,
                        )[j] == all[kept[j]] by {
                            assert(all[kept[j]] == prev_all[kept[j]]);
                        }
                    }
                },
            }
            i = i + 1;
        }
        proof {
            lemma_ascending_selection_bounded(kept, count as int);
            assert(all.len() == count as int);
            assert(is_ascending_selection(views_of(sensor_code_names@), all, kept));
            assert(ascending_sweep(sensor_code_names@, count));
        }
        Ok(sensor_code_names)
    }

    /// Enumerates the key directory: reads the key count from the
    /// reserved `"#KEY"` entry (its payload read big-endian) and sweeps
    /// that many indices through [`Self::key_names_up_to`], whose
    /// contract pins the sweep's shape — an ascending-index selection
    /// out of the directory's `count` answers, never longer than the
    /// count, and empty for a count of zero.  A `"#KEY"` payload shorter
    /// than four bytes counts nothing.  The no-duplicate law of such a
    /// selection is [`lemma_ascending_selection_distinct`], conditional
    /// on the directory answering pairwise-distinct names.
    pub fn read_all_sensors<P: SmcPort>(&mut self, port: &mut P) -> (r: Result<
        Vec<String>,
        SmcError,
    >)
        ensures
            cache_preserved(old(self).cache(), final(self).cache()),
            r matches Ok(names) ==> forall|j: int|
                0 <= j < names@.len() ==> (#[trigger] names@[j])@.len() == 4,
            r matches Err(e) ==> is_exchange_error(e),
    {
        proof {
            reveal_strlit("#KEY");
            assert(vstd::utf8::is_ascii_chars("#KEY"@));
            vstd::utf8::is_ascii_chars_encode_utf8("#KEY"@);
            assert(is_valid_key(key_bytes("#KEY"@)));
        }
        let val = match self.read_val(port, "#KEY") {
            Ok(v) => v,
            Err(e) => {
                return Err(e);
            },
        };
        if val.sensor_data.len() < 4 {
            return Ok(Vec::new());
        }
        let count = u32_from_be_4(&val.sensor_data);
        self.key_names_up_to(port, count)
    }
}

} // verus!
