//! The thermal-sensor discovery policy.
//!
//! The SMC key namespace is not self-describing, so the consumer-facing
//! view is a heuristic filter over the enumerated directory: keep keys
//! whose payload is a 4-byte little-endian 32-bit float, and partition
//! them by name prefix — `"Tp"` keys are CPU thermal sensors, `"Tg"` keys
//! are GPU thermal sensors, everything else is discarded.  The partition
//! is empirical, which is why it stands beside the raw client rather than
//! inside it.

use vstd::prelude::*;

use crate::client::AppleSMCClient;
use crate::client::SmcPort;
use crate::client::cache_preserved;
use crate::client::views_of;
use crate::error::SmcError;
use crate::fourcc::fourcc_val;
use crate::fourcc::is_valid_key;
use crate::fourcc::key_bytes;
use crate::wire::KeyInfo;

verus! {

/// The FourCC data-type tag `"flt "`: a little-endian IEEE-754 32-bit
/// float payload.
pub const FLOAT_TYPE: u32 = 0x666C7420;

/// Whether metadata describes a sensor this policy keeps: a 4-byte
/// payload tagged as a 32-bit float.
pub open spec fn is_float_sensor(info: KeyInfo) -> bool {
    info.data_size == 4 && info.data_type == FLOAT_TYPE
}

/// The thermal domain a key name is assigned to by its prefix.
#[derive(Clone, Copy, Debug, PartialEq, Eq, Structural)]
pub enum SensorDomain {
    Cpu,
    Gpu,
    Other,
}

/// Whether a name starts with the two given characters.
pub open spec fn spec_has_prefix(s: Seq<char>, c0: char, c1: char) -> bool {
    s.len() >= 2 && s[0] == c0 && s[1] == c1
}

/// Assigns a key name to its thermal domain: `"Tp…"` is CPU, `"Tg…"` is
/// GPU, anything else is discarded.
pub fn classify_sensor_name(name: &str) -> (r: SensorDomain)
    ensures
        r == SensorDomain::Cpu <==> spec_has_prefix(name@, 'T', 'p'),
        r == SensorDomain::Gpu <==> spec_has_prefix(name@, 'T', 'g'),
{
    if name.unicode_len() < 2 {
        return SensorDomain::Other;
    }
    let c0 = name.get_char(0);
    let c1 = name.get_char(1);
    if c0 == 'T' && c1 == 'p' {
        SensorDomain::Cpu
    } else if c0 == 'T' && c1 == 'g' {
        SensorDomain::Gpu
    } else {
        SensorDomain::Other
    }
}

/// Whether the filter keeps a name for the given domain, judged against
/// a metadata cache: a well-formed key with the domain's prefix, whose
/// cached metadata describes a float sensor.
pub open spec fn selected_sensor(cache: Map<u32, KeyInfo>, name: Seq<char>, domain_char: char) -> bool {
    &&& is_valid_key(key_bytes(name))
    &&& spec_has_prefix(name, 'T', domain_char)
    &&& cache.contains_key(fourcc_val(key_bytes(name)))
    &&& is_float_sensor(cache[fourcc_val(key_bytes(name))])
}

/// The names a discovery run keeps for one domain, given the per-name
/// read outcomes `ok`: exactly those names whose reads succeeded and
/// which the filter selects against the cache, in their original order.
/// `ok[j]` belongs to `names[j]`.
pub open spec fn domain_selection(
    names: Seq<Seq<char>>,
    ok: Seq<bool>,
    cache: Map<u32, KeyInfo>,
    domain_char: char,
) -> Seq<Seq<char>>
    recommends
        names.len() <= ok.len(),
    decreases names.len(),
{
    if names.len() == 0 {
        Seq::empty()
    } else {
        let rest = domain_selection(names.drop_last(), ok, cache, domain_char);
        if ok[names.len() - 1] && selected_sensor(cache, names.last(), domain_char) {
            rest.push(names.last())
        } else {
            rest
        }
    }
}

/// The selection reads `ok` only at the names' own positions.
proof fn lemma_domain_selection_ok_agree(
    names: Seq<Seq<char>>,
    ok1: Seq<bool>,
    ok2: Seq<bool>,
    cache: Map<u32, KeyInfo>,
    domain_char: char,
)
    requires
        names.len() <= ok1.len(),
        names.len() <= ok2.len(),
        forall|j: int| 0 <= j < names.len() ==> ok1[j] == ok2[j],
    ensures
        domain_selection(names, ok1, cache, domain_char) == domain_selection(
            names,
            ok2,
            cache,
            domain_char,
        ),
    decreases names.len(),
{
    if names.len() > 0 {
        lemma_domain_selection_ok_agree(names.drop_last(), ok1, ok2, cache, domain_char);
    }
}

/// Growing the cache does not change the selection, as long as every
/// name whose reads succeeded already has its key cached: the preserved
/// entries decide the filter the same way.
proof fn lemma_domain_selection_preserved(
    names: Seq<Seq<char>>,
    ok: Seq<bool>,
    before: Map<u32, KeyInfo>,
    after: Map<u32, KeyInfo>,
    domain_char: char,
)
    requires
        names.len() <= ok.len(),
        cache_preserved(before, after),
        forall|j: int|
            0 <= j < names.len() && ok[j] ==> before.contains_key(
                fourcc_val(key_bytes(#[trigger] names[j])),
            ),
    ensures
        domain_selection(names, ok, before, domain_char) == domain_selection(
            names,
            ok,
            after,
            domain_char,
        ),
    decreases names.len(),
{
    if names.len() > 0 {
        lemma_domain_selection_preserved(names.drop_last(), ok, before, after, domain_char);
        let i = names.len() - 1;
        if ok[i] {
            assert(before.contains_key(fourcc_val(key_bytes(names[i]))));
            assert(selected_sensor(before, names.last(), domain_char) == selected_sensor(
                after,
                names.last(),
                domain_char,
            ));
        }
    }
}

/// Appending one name extends the selection by that name exactly when
/// its reads succeeded and the filter keeps it.
proof fn lemma_domain_selection_extend(
    names: Seq<Seq<char>>,
    ok: Seq<bool>,
    keep: bool,
    cache: Map<u32, KeyInfo>,
    domain_char: char,
    i: int,
)
    requires
        0 <= i < names.len(),
        ok.len() == i,
    ensures
        keep && selected_sensor(cache, names[i], domain_char) ==> domain_selection(
            names.take(i + 1),
            ok.push(keep),
            cache,
            domain_char,
        ) == domain_selection(names.take(i), ok, cache, domain_char).push(names[i]),
        !(keep && selected_sensor(cache, names[i], domain_char)) ==> domain_selection(
            names.take(i + 1),
            ok.push(keep),
            cache,
            domain_char,
        ) == domain_selection(names.take(i), ok, cache, domain_char),
{
    let okb = ok.push(keep);
    assert(names.take(i + 1).drop_last() =~= names.take(i));
    assert(names.take(i + 1).last() == names[i]);
    assert(okb[i] == keep);
    lemma_domain_selection_ok_agree(names.take(i), okb, ok, cache, domain_char);
}

/// Every name the selection keeps passes the filter against that cache.
pub proof fn lemma_domain_selection_sound(
    names: Seq<Seq<char>>,
    ok: Seq<bool>,
    cache: Map<u32, KeyInfo>,
    domain_char: char,
)
    requires
        names.len() <= ok.len(),
    ensures
        forall|j: int|
            0 <= j < domain_selection(names, ok, cache, domain_char).len() ==> selected_sensor(
                cache,
                #[trigger] domain_selection(names, ok, cache, domain_char)[j],
                domain_char,
            ),
    decreases names.len(),
{
    if names.len() > 0 {
        lemma_domain_selection_sound(names.drop_last(), ok, cache, domain_char);
        let rest = domain_selection(names.drop_last(), ok, cache, domain_char);
        let sel = domain_selection(names, ok, cache, domain_char);
        assert forall|j: int| 0 <= j < sel.len() implies selected_sensor(
            cache,
            #[trigger] sel[j],
            domain_char,
        ) by {
            if j < rest.len() {
                assert(sel[j] == rest[j]);
            } else {
                assert(sel[j] == names.last());
            }
        }
    }
}

/// Partitions enumerated key names into the CPU and GPU sensor lists.
/// The lists are exactly [`domain_selection`] of the names for `'p'` and
/// `'g'`: a name is kept if and only if its metadata and value reads
/// succeeded (those outcomes are the port's to decide, so they stand as
/// one existential flag per name), its cached metadata is a 4-byte
/// float, and its prefix names the domain — in the names' original
/// order.
pub fn partition_sensors<P: SmcPort>(
    smc: &mut AppleSMCClient,
    port: &mut P,
    names: &Vec<String>,
) -> (r: (Vec<String>, Vec<String>))
    ensures
        cache_preserved(old(smc).cache(), final(smc).cache()),
        exists|ok: Seq<bool>|
            #![trigger domain_selection(views_of(names@), ok, final(smc).cache(), 'p')]
            ok.len() == names@.len() && views_of(r.0@) == domain_selection(
                views_of(names@),
                ok,
                final(smc).cache(),
                'p',
            ) && views_of(r.1@) == domain_selection(
                views_of(names@),
                ok,
                final(smc).cache(),
                'g',
            ),
        forall|j: int|
            0 <= j < r.0@.len() ==> selected_sensor(final(smc).cache(), (#[trigger] r.0@[j])@, 'p'),
        forall|j: int|
            0 <= j < r.1@.len() ==> selected_sensor(final(smc).cache(), (#[trigger] r.1@[j])@, 'g'),
{
    let ghost vnames = views_of(names@);
    let mut cpu_sensors: Vec<String> = Vec::new();
    let mut gpu_sensors: Vec<String> = Vec::new();
    let ghost mut ok: Seq<bool> = Seq::empty();

    let mut idx: usize = 0;
    while idx < names.len()
        invariant
            idx <= names@.len(),
            vnames == views_of(names@),
            ok.len() == idx,
            cache_preserved(old(smc).cache(), smc.cache()),
            forall|j: int|
                0 <= j < idx && ok[j] ==> smc.cache().contains_key(
                    fourcc_val(key_bytes(#[trigger] vnames[j])),
                ),
            views_of(cpu_sensors@) == domain_selection(
                vnames.take(idx as int),
                ok,
                smc.cache(),
                'p',
            ),
            views_of(gpu_sensors@) == domain_selection(
                vnames.take(idx as int),
                ok,
                smc.cache(),
                'g',
            ),
        decreases names@.len() - idx,
    {
        let name = &names[idx];
        proof {
            assert(vnames[idx as int] == name@);
        }
        let ghost pre_cache = smc.cache();
        let info = match smc.read_sensor_code_name_info(port, name.as_str()) {
            Ok(info) => info,
            Err(_) => {
                proof {
                    lemma_domain_selection_extend(vnames, ok, false, smc.cache(), 'p', idx as int);
                    lemma_domain_selection_extend(vnames, ok, false, smc.cache(), 'g', idx as int);
                    ok = ok.push(false);
                }
                idx = idx + 1;
                continue ;
            },
        };
        proof {
            lemma_domain_selection_preserved(
                vnames.take(idx as int),
                ok,
                pre_cache,
                smc.cache(),
                'p',
            );
            lemma_domain_selection_preserved(
                vnames.take(idx as int),
                ok,
                pre_cache,
                smc.cache(),
                'g',
            );
        }
        if info.data_size != 4 || info.data_type != FLOAT_TYPE {
            proof {
                assert(!is_float_sensor(smc.cache()[fourcc_val(key_bytes(name@))]));
                lemma_domain_selection_extend(vnames, ok, true, smc.cache(), 'p', idx as int);
                lemma_domain_selection_extend(vnames, ok, true, smc.cache(), 'g', idx as int);
                ok = ok.push(true);
            }
            idx = idx + 1;
            continue ;
        }
        let ghost mid_cache = smc.cache();
        match smc.read_val(port, name.as_str()) {
            Ok(_) => {},
            Err(_) => {
                proof {
                    assert(smc.cache() == mid_cache);
                    lemma_domain_selection_extend(vnames, ok, false, smc.cache(), 'p', idx as int);
                    lemma_domain_selection_extend(vnames, ok, false, smc.cache(), 'g', idx as int);
                    ok = ok.push(false);
                }
                idx = idx + 1;
                continue ;
            },
        }
        proof {
            assert(smc.cache() == mid_cache);
        }
        match classify_sensor_name(name.as_str()) {
            SensorDomain::Cpu => {
                cpu_sensors.push(name.clone());
                proof {
                    assert(selected_sensor(smc.cache(), name@, 'p'));
                    assert(!spec_has_prefix(name@, 'T', 'g'));
                    lemma_domain_selection_extend(vnames, ok, true, smc.cache(), 'p', idx as int);
                    lemma_domain_selection_extend(vnames, ok, true, smc.cache(), 'g', idx as int);
                    assert(views_of(cpu_sensors@) =~= views_of(cpu_sensors@.drop_last()).push(
                        name@,
                    ));
                }
            },
            SensorDomain::Gpu => {
                gpu_sensors.push(name.clone());
                proof {
                    assert(selected_sensor(smc.cache(), name@, 'g'));
                    assert(!spec_has_prefix(name@, 'T', 'p'));
                    lemma_domain_selection_extend(vnames, ok, true, smc.cache(), 'p', idx as int);
                    lemma_domain_selection_extend(vnames, ok, true, smc.cache(), 'g', idx as int);
                    assert(views_of(gpu_sensors@) =~= views_of(gpu_sensors@.drop_last()).push(
                        name@,
                    ));
                }
            },
            SensorDomain::Other => {
                proof {
                    assert(!spec_has_prefix(name@, 'T', 'p'));
                    assert(!spec_has_prefix(name@, 'T', 'g'));
                    lemma_domain_selection_extend(vnames, ok, true, smc.cache(), 'p', idx as int);
                    lemma_domain_selection_extend(vnames, ok, true, smc.cache(), 'g', idx as int);
                }
            },
        }
        proof {
            ok = ok.push(true);
        }
        idx = idx + 1;
    }

    proof {
        assert(vnames.take(names@.len() as int) =~= vnames);
        assert(views_of(cpu_sensors@) == domain_selection(vnames, ok, smc.cache(), 'p'));
        assert(views_of(gpu_sensors@) == domain_selection(vnames, ok, smc.cache(), 'g'));
        lemma_domain_selection_sound(vnames, ok, smc.cache(), 'p');
        lemma_domain_selection_sound(vnames, ok, smc.cache(), 'g');
        assert forall|j: int| 0 <= j < cpu_sensors@.len() implies selected_sensor(
            smc.cache(),
            (#[trigger] cpu_sensors@[j])@,
            'p',
        ) by {
            assert(views_of(cpu_sensors@)[j] == cpu_sensors@[j]@);
        }
        assert forall|j: int| 0 <= j < gpu_sensors@.len() implies selected_sensor(
            smc.cache(),
            (#[trigger] gpu_sensors@[j])@,
            'g',
        ) by {
            assert(views_of(gpu_sensors@)[j] == gpu_sensors@[j]@);
        }
    }
    (cpu_sensors, gpu_sensors)
}

/// Discovers the thermal sensors: enumerates the key directory (an
/// enumeration failure counts as an empty directory) and partitions the
/// names through [`partition_sensors`], whose contract fixes membership
/// in both directions given the per-name read outcomes.  Every name in
/// the returned lists passes the filter against the returned client's
/// cache.
pub fn init_temperature_smc_client<P: SmcPort>(port: &mut P) -> (r: Result<
    (AppleSMCClient, Vec<String>, Vec<String>),
    SmcError,
>)
    ensures
        r matches Ok(t) ==> {
            &&& forall|j: int|
                0 <= j < t.1@.len() ==> selected_sensor(t.0.cache(), (#[trigger] t.1@[j])@, 'p')
            &&& forall|j: int|
                0 <= j < t.2@.len() ==> selected_sensor(t.0.cache(), (#[trigger] t.2@[j])@, 'g')
        },
        r is Ok,
{
    let mut smc = AppleSMCClient::new();

    let names: Vec<String> = match smc.read_all_sensors(port) {
        Ok(ns) => ns,
        Err(_) => Vec::new(),
    };

    let (cpu_sensors, gpu_sensors) = partition_sensors(&mut smc, port, &names);
    Ok((smc, cpu_sensors, gpu_sensors))
}

} // verus!
