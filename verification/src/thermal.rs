//! Temperature sensors: choosing a hwmon device or a thermal zone from what
//! sysfs lists, and reading a temperature from a sensor file's content.
use vstd::prelude::*;
use vstd::string::*;
use crate::config::SensorSource;
use crate::text::{
    all_ascii, ascii_lower, contains_text, has_infix, i64_text_value, lowercase, parse_i64, same_text, starts_with_text,
    to_lowercase, trim, trimmed,
};

verus! {

#[derive(Debug)]
pub enum ThermalError {
    /// A sensor file or directory could not be read.
    ReadError(std::io::Error),
    /// The sensor file did not hold a number.
    ParseError,
    /// No usable sensor was found.
    NoSensorFound,
}

impl ThermalError {
    /// The message that describes the error, without the outside error's own text.
    pub fn kind_message(&self) -> (r: String)
        ensures
            r@ == match self {
                ThermalError::ReadError(_) => "Failed to read temperature"@,
                ThermalError::ParseError => "Failed to parse temperature value"@,
                ThermalError::NoSensorFound => "No suitable temperature sensor found"@,
            },
    {
        match self {
            ThermalError::ReadError(_) => String::from_str("Failed to read temperature"),
            ThermalError::ParseError => String::from_str("Failed to parse temperature value"),
            ThermalError::NoSensorFound => String::from_str("No suitable temperature sensor found"),
        }
    }
}

/// One entry of `/sys/class/hwmon`.
pub struct HwmonDevice {
    /// The content of its `name` file, when that could be read.
    pub name: Option<String>,
    /// The path of its `temp1_input` file, when that file exists.
    pub temp_input: Option<String>,
}

/// One entry of `/sys/class/thermal`.
pub struct ThermalZone {
    /// The entry's directory name.
    pub dir_name: String,
    /// The content of its `type` file, when that could be read.
    pub zone_type: Option<String>,
    /// The path of its `temp` file, when that file exists.
    pub temp: Option<String>,
}

/// Temperature sensor abstraction
pub struct ThermalSensor {
    path: String,
}

impl View for ThermalSensor {
    type V = Seq<char>;

    closed spec fn view(&self) -> Seq<char> {
        self.path@
    }
}

/// The index of the first element that satisfies `p`.
pub open spec fn first_index<T>(s: Seq<T>, p: spec_fn(T) -> bool) -> Option<int>
    decreases s.len(),
{
    if s.len() == 0 {
        None
    } else {
        match first_index(s.drop_last(), p) {
            Some(i) => Some(i),
            None => if p(s.last()) {
                Some(s.len() - 1)
            } else {
                None
            },
        }
    }
}

/// A hwmon device of the given driver that has a `temp1_input` file.
pub open spec fn hwmon_named(e: Result<HwmonDevice, std::io::Error>, driver: Seq<char>) -> bool {
    e matches Ok(d) && d.name matches Some(n) && trimmed(n@) == driver && d.temp_input is Some
}

pub open spec fn named_pred(driver: Seq<char>) -> spec_fn(Result<HwmonDevice, std::io::Error>) -> bool {
    |e: Result<HwmonDevice, std::io::Error>| hwmon_named(e, driver)
}

pub open spec fn usable_pred() -> spec_fn(Result<HwmonDevice, std::io::Error>) -> bool {
    |e: Result<HwmonDevice, std::io::Error>| hwmon_usable(e)
}

pub open spec fn unreadable_pred() -> spec_fn(Result<ThermalZone, std::io::Error>) -> bool {
    |e: Result<ThermalZone, std::io::Error>| e is Err
}

/// An entry at which the fallback scan stops: an unreadable entry, or a
/// device with a `temp1_input` file.
pub open spec fn hwmon_usable(e: Result<HwmonDevice, std::io::Error>) -> bool {
    match e {
        Err(_) => true,
        Ok(d) => d.temp_input is Some,
    }
}

/// The entry that hwmon detection settles on: the first `k10temp`, else the
/// first `coretemp`, else the first `zenpower` device, else the first usable
/// entry.
pub open spec fn hwmon_pick(es: Seq<Result<HwmonDevice, std::io::Error>>) -> Option<int> {
    match first_index(es, named_pred("k10temp"@)) {
        Some(i) => Some(i),
        None => match first_index(es, named_pred("coretemp"@)) {
            Some(i) => Some(i),
            None => match first_index(es, named_pred("zenpower"@)) {
                Some(i) => Some(i),
                None => first_index(es, usable_pred()),
            },
        },
    }
}

/// The type of a zone as it is compared: trimmed, then lowercased (for
/// ASCII text, `A`-`Z` to `a`-`z`).
pub open spec fn zone_type_text(t: Seq<char>) -> Seq<char> {
    let u = trimmed(t);
    if all_ascii(u) {
        ascii_lower(u)
    } else {
        lowercase(u)
    }
}

/// Zone types that never measure the CPU.
pub open spec fn zone_excluded(t: Seq<char>) -> bool {
    ||| has_infix(t, "acpitz"@)
    ||| has_infix(t, "iwlwifi"@)
    ||| has_infix(t, "pch"@)
    ||| has_infix(t, "int340"@)
}

/// The preference of a zone type: 0 for `x86_pkg_temp`, 1 for `cpu`, 2 for
/// `k10temp`, 3 for any other `x86_pkg` type, 4 for a type that names none of
/// them.
pub open spec fn zone_rank(t: Seq<char>) -> int {
    if has_infix(t, "x86_pkg_temp"@) {
        0
    } else if has_infix(t, "cpu"@) {
        1
    } else if has_infix(t, "k10temp"@) {
        2
    } else if has_infix(t, "x86_pkg"@) {
        3
    } else {
        4
    }
}

/// A zone that can serve as the sensor: a `thermal_zone*` entry with a
/// `temp` file and a readable type that names the CPU and is not excluded.
pub open spec fn zone_candidate(z: ThermalZone) -> bool {
    &&& z.dir_name@.len() >= 12
    &&& z.dir_name@.subrange(0, 12) == "thermal_zone"@
    &&& z.temp is Some
    &&& z.zone_type matches Some(t) && !zone_excluded(zone_type_text(t@)) && zone_rank(
        zone_type_text(t@),
    ) < 4
}

pub open spec fn zone_key(z: ThermalZone) -> int {
    zone_rank(zone_type_text(z.zone_type->0@))
}

/// The zone that detection settles on: the first candidate of the best rank.
pub open spec fn best_zone(zs: Seq<ThermalZone>) -> Option<int>
    decreases zs.len(),
{
    if zs.len() == 0 {
        None
    } else {
        let prev = best_zone(zs.drop_last());
        let i = zs.len() - 1;
        if !zone_candidate(zs[i]) {
            prev
        } else {
            match prev {
                None => Some(i),
                Some(p) => if zone_key(zs[i]) < zone_key(zs[p]) {
                    Some(i)
                } else {
                    Some(p)
                },
            }
        }
    }
}

proof fn lemma_best_zone_props(zs: Seq<ThermalZone>)
    ensures
        best_zone(zs) matches Some(b) ==> 0 <= b < zs.len() && zone_candidate(zs[b]),
    decreases zs.len(),
{
    if zs.len() > 0 {
        lemma_best_zone_props(zs.drop_last());
    }
}

/// The zones of a listing that holds no unreadable entry.
pub open spec fn zones_of(es: Seq<Result<ThermalZone, std::io::Error>>) -> Seq<ThermalZone> {
    es.map_values(|e: Result<ThermalZone, std::io::Error>| e->Ok_0)
}

/// What `read_temp` gives for a reading in millidegrees: whole degrees,
/// rounded toward zero, as `as u32` keeps them.
pub open spec fn degrees_of(milli: int) -> u32 {
    let q = if milli >= 0 {
        milli / 1000
    } else {
        -((-milli) / 1000)
    };
    (q % 0x1_0000_0000) as u32
}

proof fn lemma_first_index_props<T>(s: Seq<T>, p: spec_fn(T) -> bool)
    ensures
        first_index(s, p) matches Some(i) ==> 0 <= i < s.len() && p(s[i]),
    decreases s.len(),
{
    if s.len() > 0 {
        lemma_first_index_props(s.drop_last(), p);
    }
}

proof fn lemma_first_index_found<T>(s: Seq<T>, p: spec_fn(T) -> bool, i: int)
    requires
        0 <= i < s.len(),
        first_index(s.subrange(0, i), p) is None,
        p(s[i]),
    ensures
        first_index(s.subrange(0, i + 1), p) == Some(i),
{
    assert(s.subrange(0, i + 1).drop_last() =~= s.subrange(0, i));
}

proof fn lemma_first_index_missed<T>(s: Seq<T>, p: spec_fn(T) -> bool, i: int)
    requires
        0 <= i < s.len(),
        first_index(s.subrange(0, i), p) is None,
        !p(s[i]),
    ensures
        first_index(s.subrange(0, i + 1), p) is None,
{
    assert(s.subrange(0, i + 1).drop_last() =~= s.subrange(0, i));
}

/// The first index whose entry satisfies `p`, found by a scan.
fn find_hwmon_by_name(es: &Vec<Result<HwmonDevice, std::io::Error>>, driver: &str) -> (r: Option<
    usize,
>)
    ensures
        r == (match first_index(es@, named_pred(driver@)) {
            Some(i) => Some(i as usize),
            None => None,
        }),
{
    let mut i: usize = 0;
    assert(es@.subrange(0, 0) =~= Seq::<Result<HwmonDevice, std::io::Error>>::empty());
    while i < es.len()
        invariant
            i <= es.len(),
            first_index(es@.subrange(0, i as int), named_pred(driver@)) is None,
        decreases es.len() - i,
    {
        let hit = match &es[i] {
            Ok(d) => match &d.name {
                Some(n) => same_text(trim(n.as_str()), driver) && d.temp_input.is_some(),
                None => false,
            },
            Err(_) => false,
        };
        assert(hit == hwmon_named(es@[i as int], driver@));
        assert(hit == named_pred(driver@)(es@[i as int]));
        if hit {
            proof {
                lemma_first_index_found(es@, named_pred(driver@), i as int);
                assert(es@.subrange(0, es@.len() as int) =~= es@);
                lemma_first_index_extends(es@, named_pred(driver@), i as int + 1);
            }
            return Some(i);
        }
        proof {
            lemma_first_index_missed(es@, named_pred(driver@), i as int);
        }
        i = i + 1;
    }
    assert(es@.subrange(0, es@.len() as int) =~= es@);
    None
}

/// Once a prefix has a first match, every longer prefix has the same one.
proof fn lemma_first_index_extends<T>(s: Seq<T>, p: spec_fn(T) -> bool, k: int)
    requires
        0 <= k <= s.len(),
        first_index(s.subrange(0, k), p) is Some,
    ensures
        first_index(s, p) == first_index(s.subrange(0, k), p),
    decreases s.len() - k,
{
    if k < s.len() {
        assert(s.subrange(0, k + 1).drop_last() =~= s.subrange(0, k));
        lemma_first_index_extends(s, p, k + 1);
    } else {
        assert(s.subrange(0, k) =~= s);
    }
}

/// The first unreadable entry or device with a `temp1_input` file.
fn find_usable_hwmon(es: &Vec<Result<HwmonDevice, std::io::Error>>) -> (r: Option<usize>)
    ensures
        r == (match first_index(es@, usable_pred()) {
            Some(i) => Some(i as usize),
            None => None,
        }),
{
    let mut i: usize = 0;
    assert(es@.subrange(0, 0) =~= Seq::<Result<HwmonDevice, std::io::Error>>::empty());
    while i < es.len()
        invariant
            i <= es.len(),
            first_index(es@.subrange(0, i as int), usable_pred()) is None,
        decreases es.len() - i,
    {
        let hit = match &es[i] {
            Ok(d) => d.temp_input.is_some(),
            Err(_) => true,
        };
        assert(hit == hwmon_usable(es@[i as int]));
        assert(hit == usable_pred()(es@[i as int]));
        if hit {
            proof {
                lemma_first_index_found(es@, usable_pred(), i as int);
                lemma_first_index_extends(es@, usable_pred(), i as int + 1);
            }
            return Some(i);
        }
        proof {
            lemma_first_index_missed(es@, usable_pred(), i as int);
        }
        i = i + 1;
    }
    assert(es@.subrange(0, es@.len() as int) =~= es@);
    None
}

/// Whether a zone type, trimmed and lowercased, names a type to avoid; and
/// its preference.
fn classify_zone_type(t: &str) -> (r: (bool, u8))
    ensures
        r.0 == zone_excluded(zone_type_text(t@)),
        r.1 as int == zone_rank(zone_type_text(t@)),
{
    let lower = to_lowercase(trim(t));
    let l = lower.as_str();
    let excluded = contains_text(l, "acpitz") || contains_text(l, "iwlwifi") || contains_text(
        l,
        "pch",
    ) || contains_text(l, "int340");
    let rank = if contains_text(l, "x86_pkg_temp") {
        0
    } else if contains_text(l, "cpu") {
        1
    } else if contains_text(l, "k10temp") {
        2
    } else if contains_text(l, "x86_pkg") {
        3
    } else {
        4
    };
    (excluded, rank)
}

/// Whether a zone can serve as the sensor, and its preference.
fn zone_candidate_rank(z: &ThermalZone) -> (r: (bool, u8))
    ensures
        r.0 == zone_candidate(*z),
        r.0 ==> r.1 as int == zone_key(*z),
{
    if !starts_with_text(z.dir_name.as_str(), "thermal_zone") {
        proof {
            reveal_strlit("thermal_zone");
        }
        return (false, 4);
    }
    proof {
        reveal_strlit("thermal_zone");
    }
    if z.temp.is_none() {
        return (false, 4);
    }
    match &z.zone_type {
        None => (false, 4),
        Some(t) => {
            let (excluded, rank) = classify_zone_type(t.as_str());
            (!excluded && rank < 4, rank)
        },
    }
}

impl ThermalSensor {
    /// Create sensor from explicit path, given whether that path exists.
    pub fn from_path(path: &str, exists: bool) -> (r: Result<Self, ThermalError>)
        ensures
            exists ==> (r matches Ok(s) && s@ == path@),
            !exists ==> r matches Err(ThermalError::NoSensorFound),
    {
        if !exists {
            return Err(ThermalError::NoSensorFound);
        }
        Ok(ThermalSensor { path: String::from_str(path) })
    }

    /// Auto-detect the best temperature sensor from the hwmon and thermal
    /// listings (`None` where the directory does not exist).
    pub fn detect(
        source: SensorSource,
        hwmon: Option<Result<Vec<Result<HwmonDevice, std::io::Error>>, std::io::Error>>,
        thermal: Option<Result<Vec<Result<ThermalZone, std::io::Error>>, std::io::Error>>,
    ) -> (r: Result<Self, ThermalError>)
        ensures
            detect_outcome(source, hwmon, thermal, r),
    {
        match source {
            SensorSource::Auto => {
                // Try hwmon first, fall back to thermal zones
                match Self::detect_hwmon(hwmon) {
                    Ok(s) => Ok(s),
                    Err(_) => Self::detect_thermal_zone(thermal),
                }
            },
            SensorSource::Hwmon => Self::detect_hwmon(hwmon),
            SensorSource::Thermal => Self::detect_thermal_zone(thermal),
        }
    }

    /// Detect hwmon sensor (k10temp for AMD, coretemp for Intel)
    pub fn detect_hwmon(
        listing: Option<Result<Vec<Result<HwmonDevice, std::io::Error>>, std::io::Error>>,
    ) -> (r: Result<Self, ThermalError>)
        ensures
            hwmon_outcome(listing, r),
    {
        let mut es = match listing {
            None => {
                return Err(ThermalError::NoSensorFound);
            },
            Some(Err(e)) => {
                return Err(ThermalError::ReadError(e));
            },
            Some(Ok(es)) => es,
        };
        let ghost all = es@;
        assert(listing matches Some(Ok(v)) && v@ == all);
        // Priority order for hwmon drivers
        let mut pick = find_hwmon_by_name(&es, "k10temp");
        if pick.is_none() {
            pick = find_hwmon_by_name(&es, "coretemp");
        }
        if pick.is_none() {
            pick = find_hwmon_by_name(&es, "zenpower");
        }
        if pick.is_none() {
            // Fall back to any hwmon with temp1_input
            pick = find_usable_hwmon(&es);
        }
        proof {
            lemma_first_index_props(all, named_pred("k10temp"@));
            lemma_first_index_props(all, named_pred("coretemp"@));
            lemma_first_index_props(all, named_pred("zenpower"@));
            lemma_first_index_props(all, usable_pred());
        }
        assert(pick == (match hwmon_pick(all) {
            Some(i) => Some(i as usize),
            None => None,
        }));
        match pick {
            None => Err(ThermalError::NoSensorFound),
            Some(i) => {
                let entry = es.remove(i);
                assert(entry == all[i as int]);
                match entry {
                    Err(e) => Err(ThermalError::ReadError(e)),
                    Ok(d) => match d.temp_input {
                        Some(path) => Ok(ThermalSensor { path }),
                        None => Err(ThermalError::NoSensorFound),
                    },
                }
            },
        }
    }

    /// Detect thermal zone sensor
    pub fn detect_thermal_zone(
        listing: Option<Result<Vec<Result<ThermalZone, std::io::Error>>, std::io::Error>>,
    ) -> (r: Result<Self, ThermalError>)
        ensures
            zone_outcome(listing, r),
    {
        let mut es = match listing {
            None => {
                return Err(ThermalError::NoSensorFound);
            },
            Some(Err(e)) => {
                return Err(ThermalError::ReadError(e));
            },
            Some(Ok(es)) => es,
        };
        let ghost all = es@;
        assert(listing matches Some(Ok(v)) && v@ == all);
        let mut i: usize = 0;
        let mut best: Option<usize> = None;
        let mut best_rank: u8 = 4;
        assert(all.subrange(0, 0) =~= Seq::<Result<ThermalZone, std::io::Error>>::empty());
        while i < es.len()
            invariant
                es@ == all,
                listing matches Some(Ok(v)) && v@ == all,
                i <= es.len(),
                first_index(all.subrange(0, i as int), unreadable_pred()) is None,
                forall|k: int| 0 <= k < i ==> all[k] is Ok,
                best == (match best_zone(zones_of(all.subrange(0, i as int))) {
                    Some(b) => Some(b as usize),
                    None => None,
                }),
                best matches Some(b) ==> (b < i && best_rank as int == zone_key(zones_of(all)[b as int])),
            decreases es.len() - i,
        {
            proof {
                assert(all.subrange(0, i + 1).drop_last() =~= all.subrange(0, i as int));
                assert(zones_of(all.subrange(0, i + 1)).drop_last() =~= zones_of(all.subrange(0, i as int)));
            }
            match &es[i] {
                Err(_) => {
                    proof {
                        assert(all[i as int] is Err);
                        assert(unreadable_pred()(all[i as int]));
                        lemma_first_index_found(all, unreadable_pred(), i as int);
                        lemma_first_index_extends(all, unreadable_pred(), i as int + 1);
                    }
                    let entry = es.remove(i);
                    assert(entry == all[i as int]);
                    match entry {
                        Err(e) => {
                            return Err(ThermalError::ReadError(e));
                        },
                        Ok(_) => {
                            return Err(ThermalError::NoSensorFound);
                        },
                    }
                },
                Ok(z) => {
                    proof {
                        assert(!unreadable_pred()(all[i as int]));
                        lemma_first_index_missed(all, unreadable_pred(), i as int);
                        assert(zones_of(all.subrange(0, i + 1))[i as int] == *z);
                        assert(zones_of(all)[i as int] == *z);
                        if let Some(b) = best {
                            assert(zones_of(all.subrange(0, i + 1))[b as int] == zones_of(all)[b as int]);
                        }
                    }
                    let ghost zs = zones_of(all.subrange(0, i + 1));
                    proof {
                        lemma_best_zone_props(zones_of(all.subrange(0, i as int)));
                        assert(zs.len() == i + 1);
                        assert(zs[i as int] == *z);
                        if let Some(b) = best {
                            assert(zs[b as int] == zones_of(all.subrange(0, i as int))[b as int]);
                        }
                    }
                    let (candidate, rank) = zone_candidate_rank(z);
                    if candidate {
                        if best.is_none() || rank < best_rank {
                            best = Some(i);
                            best_rank = rank;
                        }
                    }
                    assert(best == (match best_zone(zs) {
                        Some(b) => Some(b as usize),
                        None => None,
                    }));
                },
            }
            i = i + 1;
        }
        proof {
            assert(all.subrange(0, all.len() as int) =~= all);
            lemma_best_zone_props(zones_of(all));
        }
        match best {
            None => Err(ThermalError::NoSensorFound),
            Some(b) => {
                let entry = es.remove(b);
                assert(entry == all[b as int]);
                assert(all[b as int] is Ok);
                assert(zones_of(all)[b as int] == all[b as int]->Ok_0);
                match entry {
                    Ok(z) => match z.temp {
                        Some(path) => Ok(ThermalSensor { path }),
                        None => Err(ThermalError::NoSensorFound),
                    },
                    Err(e) => Err(ThermalError::ReadError(e)),
                }
            },
        }
    }

    /// Read current temperature in degrees Celsius from the sensor file's
    /// content (sysfs reports millidegrees).
    pub fn read_temp(content: Result<String, std::io::Error>) -> (r: Result<u32, ThermalError>)
        ensures
            match content {
                Err(e) => r == Err::<u32, ThermalError>(ThermalError::ReadError(e)),
                Ok(text) => match i64_text_value(trimmed(text@)) {
                    Some(m) => r == Ok::<u32, ThermalError>(degrees_of(m)),
                    None => r matches Err(ThermalError::ParseError),
                },
            },
    {
        let text = match content {
            Err(e) => {
                return Err(ThermalError::ReadError(e));
            },
            Ok(text) => text,
        };
        proof {
            crate::text::lemma_i64_text_value_in_range(trimmed(text@));
        }
        let millidegrees = match parse_i64(trim(text.as_str())) {
            Some(m) => m,
            None => {
                return Err(ThermalError::ParseError);
            },
        };
        Ok(Self::degrees(millidegrees))
    }

    fn degrees(m: i64) -> (r: u32)
        ensures
            r == degrees_of(m as int),
    {
        let wide = m as i128;
        let q: i128 = if wide >= 0 {
            wide / 1000
        } else {
            0 - ((0 - wide) / 1000)
        };
        if q >= 0 {
            (q % 0x1_0000_0000) as u32
        } else {
            let a = (0 - q) % 0x1_0000_0000;
            proof {
                lemma_wrap_negative(q as int);
            }
            if a == 0 {
                0
            } else {
                (0x1_0000_0000 - a) as u32
            }
        }
    }

    /// Get the sensor path
    pub fn path(&self) -> (r: &str)
        ensures
            r@ == self@,
    {
        self.path.as_str()
    }
}

proof fn lemma_wrap_negative(q: int)
    requires
        q < 0,
    ensures
        ((-q) % 0x1_0000_0000 == 0) ==> q % 0x1_0000_0000 == 0,
        ((-q) % 0x1_0000_0000 != 0) ==> q % 0x1_0000_0000 == 0x1_0000_0000 - ((-q) % 0x1_0000_0000),
{
    let m: int = 0x1_0000_0000;
    let a = (-q) % m;
    let k = (-q) / m;
    assert(-q == k * m + a && 0 <= a < m) by {
        vstd::arithmetic::div_mod::lemma_fundamental_div_mod(-q, m);
    }
    if a == 0 {
        assert(q == (-k) * m);
        vstd::arithmetic::div_mod::lemma_mod_multiples_basic(-k, m);
    } else {
        assert(q == (-k - 1) * m + (m - a)) by (nonlinear_arith)
            requires
                -q == k * m + a,
        ;
        vstd::arithmetic::div_mod::lemma_mod_multiples_vanish(-k - 1, m - a, m);
        vstd::arithmetic::div_mod::lemma_small_mod((m - a) as nat, m as nat);
    }
}

/// Whether hwmon detection finds a sensor in this listing.
pub open spec fn hwmon_finds(
    listing: Option<Result<Vec<Result<HwmonDevice, std::io::Error>>, std::io::Error>>,
) -> bool {
    listing matches Some(Ok(es)) && hwmon_pick(es@) matches Some(i) && es@[i] matches Ok(_)
}

/// What hwmon detection gives for a listing.
pub open spec fn hwmon_outcome(
    listing: Option<Result<Vec<Result<HwmonDevice, std::io::Error>>, std::io::Error>>,
    r: Result<ThermalSensor, ThermalError>,
) -> bool {
    match listing {
        None => r matches Err(ThermalError::NoSensorFound),
        Some(Err(e)) => r matches Err(ThermalError::ReadError(x)) && x == e,
        Some(Ok(es)) => match hwmon_pick(es@) {
            None => r matches Err(ThermalError::NoSensorFound),
            Some(i) => match es@[i] {
                Err(e) => r matches Err(ThermalError::ReadError(x)) && x == e,
                Ok(d) => r matches Ok(s) && s@ == d.temp_input->0@,
            },
        },
    }
}

/// What detection gives for a sensor source: hwmon first under `Auto`, and
/// the thermal zones when hwmon finds nothing.
pub open spec fn detect_outcome(
    source: SensorSource,
    hwmon: Option<Result<Vec<Result<HwmonDevice, std::io::Error>>, std::io::Error>>,
    thermal: Option<Result<Vec<Result<ThermalZone, std::io::Error>>, std::io::Error>>,
    r: Result<ThermalSensor, ThermalError>,
) -> bool {
    match source {
        SensorSource::Hwmon => hwmon_outcome(hwmon, r),
        SensorSource::Thermal => zone_outcome(thermal, r),
        SensorSource::Auto => if hwmon_finds(hwmon) {
            hwmon_outcome(hwmon, r)
        } else {
            zone_outcome(thermal, r)
        },
    }
}

/// Hwmon detection finds a sensor exactly when it gives one: when it gives
/// an error, `Auto` detection goes on to the thermal zones.
pub proof fn lemma_hwmon_finds_iff_ok(
    listing: Option<Result<Vec<Result<HwmonDevice, std::io::Error>>, std::io::Error>>,
    r: Result<ThermalSensor, ThermalError>,
)
    requires
        hwmon_outcome(listing, r),
    ensures
        hwmon_finds(listing) <==> r is Ok,
{
}

/// `Auto` detection: a sensor that hwmon detection finds wins; when hwmon
/// detection gives an error, the answer is the thermal zones' answer.
pub proof fn lemma_auto_falls_back(
    hwmon: Option<Result<Vec<Result<HwmonDevice, std::io::Error>>, std::io::Error>>,
    thermal: Option<Result<Vec<Result<ThermalZone, std::io::Error>>, std::io::Error>>,
    from_hwmon: Result<ThermalSensor, ThermalError>,
    r: Result<ThermalSensor, ThermalError>,
)
    requires
        hwmon_outcome(hwmon, from_hwmon),
        detect_outcome(SensorSource::Auto, hwmon, thermal, r),
    ensures
        from_hwmon is Err ==> zone_outcome(thermal, r),
        from_hwmon is Ok ==> hwmon_outcome(hwmon, r),
{
}

/// What thermal-zone detection gives for a listing.
pub open spec fn zone_outcome(
    listing: Option<Result<Vec<Result<ThermalZone, std::io::Error>>, std::io::Error>>,
    r: Result<ThermalSensor, ThermalError>,
) -> bool {
    match listing {
        None => r matches Err(ThermalError::NoSensorFound),
        Some(Err(e)) => r matches Err(ThermalError::ReadError(x)) && x == e,
        Some(Ok(es)) => match first_index(es@, unreadable_pred()) {
            Some(i) => r matches Err(ThermalError::ReadError(x)) && es@[i] == Err::<
                ThermalZone,
                std::io::Error,
            >(x),
            None => match best_zone(zones_of(es@)) {
                None => r matches Err(ThermalError::NoSensorFound),
                Some(b) => r matches Ok(s) && s@ == zones_of(es@)[b].temp->0@,
            },
        },
    }
}

/// A zone whose type reads `x86_pkg_temp` has the first preference.
pub proof fn lemma_x86_pkg_temp_ranks_first()
    ensures
        zone_rank(zone_type_text("x86_pkg_temp"@)) == 0,
{
    reveal_strlit("x86_pkg_temp");
    let t = "x86_pkg_temp"@;
    assert(!crate::text::is_ws(t[0]));
    assert(crate::text::trim_start(t) == t);
    assert(!crate::text::is_ws(t.last()));
    assert(crate::text::trim_end(t) == t);
    assert(all_ascii(t));
    let l = ascii_lower(t);
    let n = "x86_pkg_temp"@;
    assert(l.subrange(0, 0 + n.len() as int) =~= n);
    assert(has_infix(l, n));
}

} // verus!
