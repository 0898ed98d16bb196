//! Fan readings probed from Apple SMC keys.
//!
//! Reading a key is done by the caller's `read_key`, which returns the key's
//! value as a whole number, or `None` when the key cannot be read.
use crate::text::{decimal, joined, owned, unsigned_text};
use vstd::prelude::*;

pub mod battery;
pub mod temperature;

verus! {

/// The raw measurements of one fan.
#[derive(Debug, PartialEq, Eq)]
pub struct RawFanReading {
    pub id: usize,
    pub label: String,
    pub speed_rpm: i32,
    pub min_speed_rpm: Option<i32>,
    pub max_speed_rpm: Option<i32>,
    pub target_speed_rpm: Option<i32>,
    pub is_manual: Option<bool>,
}

/// How many fans to probe: the reported fan count, or four when the count
/// is unreadable or zero.
pub open spec fn probe_count(fan_count: Option<i32>) -> int {
    match fan_count {
        Some(n) => if n > 0 {
            n as int
        } else {
            4
        },
        None => 4,
    }
}

/// The SMC key of one fan measurement, such as `F0Ac`.
pub open spec fn fan_key(id: nat, suffix: Seq<char>) -> Seq<char> {
    "F"@ + decimal(id) + suffix
}

/// The display label of a fan.
pub open spec fn fan_label(id: nat) -> Seq<char> {
    if id == 0 {
        "Fan 1 (Left)"@
    } else if id == 1 {
        "Fan 2 (Right)"@
    } else {
        "Fan "@ + decimal(id + 1)
    }
}

/// The key of one fan measurement.
fn key_for(id: usize, suffix: &str) -> (key: String)
    ensures
        key@ == fan_key(id as nat, suffix@),
{
    let digits = unsigned_text(id as u64);
    let mut key = joined("F", digits.as_str());
    key.append(suffix);
    key
}

/// The display label of a fan.
fn label_for(id: usize) -> (label: String)
    requires
        id < usize::MAX,
    ensures
        label@ == fan_label(id as nat),
{
    if id == 0 {
        owned("Fan 1 (Left)")
    } else if id == 1 {
        owned("Fan 2 (Right)")
    } else {
        let digits = unsigned_text((id + 1) as u64);
        joined("Fan ", digits.as_str())
    }
}

/// Whether reading `key` may return `value`.
pub open spec fn reads_as(read_key: impl Fn(String) -> Option<i32>, key: Seq<char>, value: Option<i32>) -> bool {
    exists|k: String| k@ == key && read_key.ensures((k,), value)
}

/// Whether the current speed of fan `id` may read as unreadable.
pub open spec fn speed_unreadable(read_key: impl Fn(String) -> Option<i32>, id: int) -> bool {
    reads_as(read_key, fan_key(id as nat, "Ac"@), None)
}

/// Whether some reading is of fan `id`.
pub open spec fn has_reading(readings: Seq<RawFanReading>, id: int) -> bool {
    exists|j: int| 0 <= j < readings.len() && #[trigger] readings[j].id == id
}

/// Whether a reading is what the keys of its fan returned.
pub open spec fn reading_matches(read_key: impl Fn(String) -> Option<i32>, r: RawFanReading) -> bool {
    &&& r.label@ == fan_label(r.id as nat)
    &&& reads_as(read_key, fan_key(r.id as nat, "Ac"@), Some(r.speed_rpm))
    &&& reads_as(read_key, fan_key(r.id as nat, "Mn"@), r.min_speed_rpm)
    &&& reads_as(read_key, fan_key(r.id as nat, "Mx"@), r.max_speed_rpm)
    &&& reads_as(read_key, fan_key(r.id as nat, "Tg"@), r.target_speed_rpm)
    &&& exists|mode: Option<i32>|
        reads_as(read_key, fan_key(r.id as nat, "Md"@), mode) && r.is_manual == match mode {
            Some(v) => Some(v == 1),
            None => None,
        }
}

/// Probes each fan's current, minimum, maximum and target speed and its
/// mode (`1` is manual).  Fans whose current speed cannot be read are
/// omitted; other unreadable measurements stay absent.
pub fn get_fan_readings(read_key: impl Fn(String) -> Option<i32>) -> (readings: Vec<RawFanReading>)
    requires
        forall|k: String| read_key.requires((k,)),
    ensures
        exists|fan_count: Option<i32>|
            #![trigger probe_count(fan_count)]
            reads_as(read_key, "FNum"@, fan_count) && {
                let count = probe_count(fan_count);
                &&& forall|j: int|
                    0 <= j < readings@.len() ==> (readings@[j].id as int) < count && reading_matches(
                        read_key,
                        #[trigger] readings@[j],
                    )
                &&& forall|j: int, k: int|
                    0 <= j < k < readings@.len() ==> #[trigger] readings@[j].id < #[trigger] readings@[k].id
                &&& forall|id: int|
                    0 <= id < count && !has_reading(readings@, id) ==> #[trigger] speed_unreadable(
                        read_key,
                        id,
                    )
            },
{
    let count_key = owned("FNum");
    let fan_count = read_key(count_key);
    assert(reads_as(read_key, "FNum"@, fan_count));
    let count: usize = match fan_count {
        Some(n) => if n > 0 {
            n as usize
        } else {
            4
        },
        None => 4,
    };
    let mut readings: Vec<RawFanReading> = Vec::new();
    let mut i: usize = 0;
    while i < count
        invariant
            i <= count,
            count == probe_count(fan_count),
            count < usize::MAX,
            forall|k: String| read_key.requires((k,)),
            forall|j: int|
                0 <= j < readings@.len() ==> (readings@[j].id as int) < i && reading_matches(
                    read_key,
                    #[trigger] readings@[j],
                ),
            forall|j: int, k: int|
                0 <= j < k < readings@.len() ==> #[trigger] readings@[j].id < #[trigger] readings@[k].id,
            forall|id: int|
                0 <= id < i && !has_reading(readings@, id) ==> #[trigger] speed_unreadable(read_key, id),
        decreases count - i,
    {
        let speed_key = key_for(i, "Ac");
        let speed = read_key(speed_key);
        assert(reads_as(read_key, fan_key(i as nat, "Ac"@), speed));
        let min_key = key_for(i, "Mn");
        let min_speed_rpm = read_key(min_key);
        assert(reads_as(read_key, fan_key(i as nat, "Mn"@), min_speed_rpm));
        let max_key = key_for(i, "Mx");
        let max_speed_rpm = read_key(max_key);
        assert(reads_as(read_key, fan_key(i as nat, "Mx"@), max_speed_rpm));
        let target_key = key_for(i, "Tg");
        let target_speed_rpm = read_key(target_key);
        assert(reads_as(read_key, fan_key(i as nat, "Tg"@), target_speed_rpm));
        let mode_key = key_for(i, "Md");
        let mode = read_key(mode_key);
        assert(reads_as(read_key, fan_key(i as nat, "Md"@), mode));
        let is_manual = match mode {
            Some(v) => Some(v == 1),
            None => None,
        };
        let ghost before = readings@;
        if let Some(speed_rpm) = speed {
            let reading = RawFanReading {
                id: i,
                label: label_for(i),
                speed_rpm,
                min_speed_rpm,
                max_speed_rpm,
                target_speed_rpm,
                is_manual,
            };
            assert(reads_as(read_key, fan_key(i as nat, "Md"@), mode) && reading.is_manual == match mode {
                Some(v) => Some(v == 1),
                None => None,
            });
            assert(reading_matches(read_key, reading));
            readings.push(reading);
            proof {
                assert forall|id: int|
                    0 <= id < i + 1 && !has_reading(readings@, id) implies #[trigger] speed_unreadable(
                    read_key,
                    id,
                ) by {
                    if id == i {
                        assert(readings@[readings@.len() - 1].id == id);
                    } else {
                        if has_reading(before, id) {
                            let j = choose|j: int| 0 <= j < before.len() && #[trigger] before[j].id == id;
                            assert(readings@[j].id == id);
                        }
                    }
                }
            }
        } else {
            proof {
                assert forall|id: int|
                    0 <= id < i + 1 && !has_reading(readings@, id) implies #[trigger] speed_unreadable(
                    read_key,
                    id,
                ) by {
                    if id == i {
                        assert(speed_unreadable(read_key, id));
                    }
                }
            }
        }
        i = i + 1;
    }
    readings
}

/// Runs an operation on the open SMC connection, or reports that the SMC
/// cannot be opened.
pub fn with_smc_connection<T>(
    connection: Option<u32>,
    operation: impl FnOnce(u32) -> Result<T, String>,
) -> (r: Result<T, String>)
    requires
        connection matches Some(c) ==> operation.requires((c,)),
    ensures
        connection is None ==> (r matches Err(e) && e@ == crate::hardware_telemetry::adapters::smc::smc_unavailable_message()),
        connection matches Some(c) ==> operation.ensures((c,), r),
{
    match connection {
        Some(c) => operation(c),
        None => Err(owned("SMC access is unavailable")),
    }
}

} // verus!
