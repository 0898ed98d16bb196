//! CPU and GPU temperatures and the per-core sensor list, from SMC keys.
//!
//! Readings are whole milli-degrees Celsius.  A reading is only trusted
//! strictly between 15 °C and 125 °C, and reported values are rounded to a
//! tenth of a degree.
use super::reads_as;
use crate::text::{decimal, joined, unsigned_text};
use vstd::prelude::*;

verus! {

/// A reading that can be trusted.
pub open spec fn plausible(m: i32) -> bool {
    15_000 < m && m < 125_000
}

/// A temperature rounded to the nearest tenth of a degree, halves away from
/// zero.
pub open spec fn to_tenth(m: int) -> int {
    if m >= 0 {
        ((m + 50) / 100) * 100
    } else {
        -(((-m + 50) / 100) * 100)
    }
}

/// The Apple Silicon and then the Intel CPU core temperature keys.
pub open spec fn cpu_sensor_keys() -> Seq<Seq<char>> {
    seq![
        "Te05"@, "Te0L"@, "Te0P"@, "Te0S"@, "Tp01"@, "Tp05"@, "Tp09"@, "Tp0D"@, "Tp0H"@,
        "Tp0L"@, "Tp0P"@, "Tp0T"@, "Tp0X"@, "Tp0b"@, "Tp0f"@, "Tp0j"@, "Tp0n"@, "Tp0r"@,
        "Tp0v"@, "Tp0z"@, "Tp19"@, "Tp1d"@, "Tp1f"@, "Tp1h"@, "Tp1n"@, "Tp1p"@, "Tp1t"@,
        "Tp1v"@, "TC0P"@, "TCXC"@, "TC0E"@, "TC0F"@, "TC0D"@, "TC1C"@, "TC2C"@, "TC3C"@,
        "TC4C"@,
    ]
}

/// The Apple Silicon and then the Intel GPU temperature keys.
pub open spec fn gpu_sensor_keys() -> Seq<Seq<char>> {
    seq![
        "Tg05"@, "Tg0D"@, "Tg0L"@, "Tg0T"@, "Tg0V"@, "Tg0f"@, "Tg0j"@, "Tg1f"@, "Tg1j"@,
        "TGDD"@, "TG0P"@, "TG0D"@, "TG0E"@, "TG0F"@,
    ]
}

fn cpu_keys() -> (keys: Vec<&'static str>)
    ensures
        keys@.map_values(|k: &str| k@) == cpu_sensor_keys(),
{
    let keys = vec![
        "Te05", "Te0L", "Te0P", "Te0S", "Tp01", "Tp05", "Tp09", "Tp0D", "Tp0H", "Tp0L", "Tp0P",
        "Tp0T", "Tp0X", "Tp0b", "Tp0f", "Tp0j", "Tp0n", "Tp0r", "Tp0v", "Tp0z", "Tp19", "Tp1d",
        "Tp1f", "Tp1h", "Tp1n", "Tp1p", "Tp1t", "Tp1v", "TC0P", "TCXC", "TC0E", "TC0F", "TC0D",
        "TC1C", "TC2C", "TC3C", "TC4C",
    ];
    assert(keys@.map_values(|k: &str| k@) =~= cpu_sensor_keys());
    keys
}

fn gpu_keys() -> (keys: Vec<&'static str>)
    ensures
        keys@.map_values(|k: &str| k@) == gpu_sensor_keys(),
{
    let keys = vec![
        "Tg05", "Tg0D", "Tg0L", "Tg0T", "Tg0V", "Tg0f", "Tg0j", "Tg1f", "Tg1j", "TGDD", "TG0P",
        "TG0D", "TG0E", "TG0F",
    ];
    assert(keys@.map_values(|k: &str| k@) =~= gpu_sensor_keys());
    keys
}

/// Whether `values` is what reading each key may return, in order.
pub open spec fn read_all(read_key: impl Fn(String) -> Option<i32>, keys: Seq<Seq<char>>, values: Seq<Option<i32>>) -> bool {
    &&& values.len() == keys.len()
    &&& forall|i: int| 0 <= i < keys.len() ==> reads_as(read_key, keys[i], #[trigger] values[i])
}

/// Reads every key once, in order.
fn read_each<F: Fn(String) -> Option<i32>>(read_key: F, keys: &Vec<&'static str>) -> (values: Vec<
    Option<i32>,
>)
    requires
        forall|k: String| read_key.requires((k,)),
    ensures
        read_all(read_key, keys@.map_values(|k: &str| k@), values@),
{
    let ghost names = keys@.map_values(|k: &str| k@);
    let mut values: Vec<Option<i32>> = Vec::new();
    let mut i: usize = 0;
    while i < keys.len()
        invariant
            i <= keys.len(),
            names == keys@.map_values(|k: &str| k@),
            values@.len() == i,
            forall|k: String| read_key.requires((k,)),
            forall|j: int| 0 <= j < i ==> reads_as(read_key, names[j], #[trigger] values@[j]),
        decreases keys.len() - i,
    {
        let key = keys[i].to_owned();
        let value = read_key(key);
        assert(reads_as(read_key, names[i as int], value));
        values.push(value);
        i = i + 1;
    }
    values
}

/// The trusted readings, in order.
pub open spec fn plausible_values(readings: Seq<Option<i32>>) -> Seq<i32>
    decreases readings.len(),
{
    if readings.len() == 0 {
        Seq::empty()
    } else {
        let rest = plausible_values(readings.drop_last());
        match readings.last() {
            Some(m) => if plausible(m) {
                rest.push(m)
            } else {
                rest
            },
            None => rest,
        }
    }
}

/// The position of the first largest of the first `n` values.
pub open spec fn first_max_index(s: Seq<i32>, n: int) -> int
    decreases n,
{
    if n <= 1 {
        0
    } else {
        let j = first_max_index(s, n - 1);
        if s[n - 1] > s[j] {
            n - 1
        } else {
            j
        }
    }
}

/// The sum of the `k` largest values.
pub open spec fn largest_sum(s: Seq<i32>, k: nat) -> int
    decreases k,
{
    if k == 0 || s.len() == 0 {
        0
    } else {
        let i = first_max_index(s, s.len() as int);
        s[i] + largest_sum(s.remove(i), (k - 1) as nat)
    }
}

/// The CPU temperature: the mean of the (at most) four hottest trusted
/// readings, to a tenth of a degree.
pub open spec fn cpu_temperature_of(readings: Seq<Option<i32>>) -> Option<i32> {
    let values = plausible_values(readings);
    if values.len() == 0 {
        None
    } else {
        let k: int = if values.len() < 4 {
            values.len() as int
        } else {
            4
        };
        Some((((largest_sum(values, k as nat) + 50 * k) / (100 * k)) * 100) as i32)
    }
}

/// The hottest trusted reading; the earliest wins a tie.
pub open spec fn max_plausible(readings: Seq<Option<i32>>) -> Option<i32>
    decreases readings.len(),
{
    if readings.len() == 0 {
        None
    } else {
        let rest = max_plausible(readings.drop_last());
        match readings.last() {
            Some(m) => if plausible(m) {
                match rest {
                    Some(c) => if m > c {
                        Some(m)
                    } else {
                        Some(c)
                    },
                    None => Some(m),
                }
            } else {
                rest
            },
            None => rest,
        }
    }
}

/// The last GPU temperature that was read, and when.
#[derive(Debug, Clone, Copy, PartialEq, Eq, Structural)]
pub struct GpuTemperatureCache {
    pub millicelsius: i32,
    pub read_at_ms: u64,
}

/// How long a cached GPU temperature stands in for an unreadable one.
pub const GPU_CACHE_MS: u64 = 8_000;

/// The GPU temperature and the cache after reading it: the hottest trusted
/// reading, to a tenth of a degree, which becomes the cache; when nothing
/// is readable, a cached value younger than [`GPU_CACHE_MS`] stands in.
pub open spec fn gpu_temperature_of(
    readings: Seq<Option<i32>>,
    cache: Option<GpuTemperatureCache>,
    now_ms: u64,
) -> (Option<i32>, Option<GpuTemperatureCache>) {
    match max_plausible(readings) {
        Some(t) => {
            let r = to_tenth(t as int) as i32;
            (Some(r), Some(GpuTemperatureCache { millicelsius: r, read_at_ms: now_ms }))
        },
        None => match cache {
            Some(c) => {
                let elapsed: int = if now_ms >= c.read_at_ms {
                    now_ms - c.read_at_ms
                } else {
                    0
                };
                if elapsed < GPU_CACHE_MS {
                    (Some(c.millicelsius), cache)
                } else {
                    (None, cache)
                }
            },
            None => (None, None),
        },
    }
}

/// The label of the `index`-th trusted core sensor: efficiency cores (`Te`
/// keys), performance cores (`Tp` keys), or plain CPU cores.
pub open spec fn core_label(key: Seq<char>, index: nat) -> Seq<char> {
    if key.len() >= 2 && key[0] == 'T' && key[1] == 'e' {
        "E-Core "@ + decimal(index)
    } else if key.len() >= 2 && key[0] == 'T' && key[1] == 'p' {
        "P-Core "@ + decimal(index)
    } else {
        "CPU Core "@ + decimal(index)
    }
}

/// The sensor list of the first `n` keys: each trusted reading with its key,
/// its label and its value to a tenth of a degree; cores are numbered from
/// one in the order they are listed.
pub open spec fn sensors_upto(keys: Seq<Seq<char>>, readings: Seq<Option<i32>>, n: int) -> Seq<
    (Seq<char>, Seq<char>, i32),
>
    decreases n,
{
    if n <= 0 {
        Seq::empty()
    } else {
        let rest = sensors_upto(keys, readings, n - 1);
        match readings[n - 1] {
            Some(m) => if plausible(m) {
                rest.push(
                    (keys[n - 1], core_label(keys[n - 1], (rest.len() + 1) as nat), to_tenth(
                        m as int,
                    ) as i32),
                )
            } else {
                rest
            },
            None => rest,
        }
    }
}

/// A sensor list as plain values.
pub open spec fn sensors_view(sensors: Seq<(String, String, i32)>) -> Seq<(Seq<char>, Seq<char>, i32)> {
    sensors.map_values(|s: (String, String, i32)| (s.0@, s.1@, s.2))
}

fn round_to_tenth(m: i32) -> (r: i32)
    requires
        0 <= m <= 125_000,
    ensures
        r == to_tenth(m as int),
{
    ((m + 50) / 100) * 100
}

/// Keeps the trusted readings, in order.
fn plausible_list(readings: &Vec<Option<i32>>) -> (values: Vec<i32>)
    ensures
        values@ == plausible_values(readings@),
        forall|j: int| 0 <= j < values@.len() ==> plausible(#[trigger] values@[j]),
{
    let mut values: Vec<i32> = Vec::new();
    let mut i: usize = 0;
    while i < readings.len()
        invariant
            i <= readings.len(),
            values@ == plausible_values(readings@.take(i as int)),
            forall|j: int| 0 <= j < values@.len() ==> plausible(#[trigger] values@[j]),
        decreases readings.len() - i,
    {
        proof {
            assert(readings@.take(i + 1).drop_last() =~= readings@.take(i as int));
        }
        match readings[i] {
            Some(m) => {
                if 15_000 < m && m < 125_000 {
                    values.push(m);
                }
            },
            None => {},
        }
        i = i + 1;
    }
    assert(readings@.take(readings@.len() as int) =~= readings@);
    values
}

/// The position of the first largest value.
fn first_max(values: &Vec<i32>) -> (i: usize)
    requires
        values.len() > 0,
    ensures
        i < values.len(),
        i == first_max_index(values@, values@.len() as int),
{
    let mut best: usize = 0;
    let mut j: usize = 1;
    while j < values.len()
        invariant
            1 <= j <= values.len(),
            best < j,
            best == first_max_index(values@, j as int),
        decreases values.len() - j,
    {
        if values[j] > values[best] {
            best = j;
        }
        j = j + 1;
    }
    best
}

/// The sum of the `k` largest trusted values.
fn sum_of_largest(values: Vec<i32>, k: usize) -> (sum: i32)
    requires
        k <= 4,
        forall|j: int| 0 <= j < values@.len() ==> plausible(#[trigger] values@[j]),
    ensures
        sum == largest_sum(values@, k as nat),
        0 <= sum <= k * 125_000,
{
    let ghost all = values@;
    let mut rest = values;
    let mut sum: i32 = 0;
    let mut taken: usize = 0;
    while taken < k && rest.len() > 0
        invariant
            taken <= k <= 4,
            0 <= sum <= taken * 125_000,
            sum + largest_sum(rest@, (k - taken) as nat) == largest_sum(all, k as nat),
            forall|j: int| 0 <= j < rest@.len() ==> plausible(#[trigger] rest@[j]),
        decreases k - taken,
    {
        let i = first_max(&rest);
        let ghost before = rest@;
        let m = rest.remove(i);
        assert(plausible(before[i as int]));
        proof {
            assert forall|j: int| 0 <= j < rest@.len() implies plausible(#[trigger] rest@[j]) by {
                if j < i {
                    assert(rest@[j] == before[j]);
                } else {
                    assert(rest@[j] == before[j + 1]);
                }
            }
        }
        sum = sum + m;
        taken = taken + 1;
    }
    sum
}

/// The CPU temperature from one reading of each CPU key, in the order of
/// [`cpu_sensor_keys`].
pub fn cpu_temperature(readings: &Vec<Option<i32>>) -> (t: Option<i32>)
    ensures
        t == cpu_temperature_of(readings@),
{
    let values = plausible_list(readings);
    let n = values.len();
    if n == 0 {
        return None;
    }
    let k: usize = if n < 4 {
        n
    } else {
        4
    };
    let sum = sum_of_largest(values, k);
    let k32 = k as i32;
    proof {
        assert(0 <= sum <= k * 125_000);
        assert(((sum + 50 * k32) / (100 * k32)) * 100 <= 125_000) by (nonlinear_arith)
            requires
                0 <= sum <= k32 * 125_000,
                1 <= k32 <= 4,
        {
            assert((sum + 50 * k32) / (100 * k32) <= 1250) by (nonlinear_arith)
                requires
                    0 <= sum <= k32 * 125_000,
                    1 <= k32 <= 4,
            {
                assert(sum + 50 * k32 < 1251 * (100 * k32));
            }
        }
    }
    Some(((sum + 50 * k32) / (100 * k32)) * 100)
}

/// The hottest trusted reading.
fn hottest(readings: &Vec<Option<i32>>) -> (t: Option<i32>)
    ensures
        t == max_plausible(readings@),
        t matches Some(m) ==> plausible(m),
{
    let mut best: Option<i32> = None;
    let mut i: usize = 0;
    while i < readings.len()
        invariant
            i <= readings.len(),
            best == max_plausible(readings@.take(i as int)),
            best matches Some(m) ==> plausible(m),
        decreases readings.len() - i,
    {
        proof {
            assert(readings@.take(i + 1).drop_last() =~= readings@.take(i as int));
        }
        match readings[i] {
            Some(m) => {
                if 15_000 < m && m < 125_000 {
                    best = match best {
                        Some(c) => if m > c {
                            Some(m)
                        } else {
                            Some(c)
                        },
                        None => Some(m),
                    };
                }
            },
            None => {},
        }
        i = i + 1;
    }
    assert(readings@.take(readings@.len() as int) =~= readings@);
    best
}

/// The GPU temperature from one reading of each GPU key, in the order of
/// [`gpu_sensor_keys`], and the cache to keep.
pub fn gpu_temperature(readings: &Vec<Option<i32>>, cache: Option<GpuTemperatureCache>, now_ms: u64) -> (r: (
    Option<i32>,
    Option<GpuTemperatureCache>,
))
    ensures
        r == gpu_temperature_of(readings@, cache, now_ms),
{
    match hottest(readings) {
        Some(t) => {
            let rounded = round_to_tenth(t);
            (Some(rounded), Some(GpuTemperatureCache { millicelsius: rounded, read_at_ms: now_ms }))
        },
        None => match cache {
            Some(c) => {
                if now_ms.saturating_sub(c.read_at_ms) < GPU_CACHE_MS {
                    (Some(c.millicelsius), cache)
                } else {
                    (None, cache)
                }
            },
            None => (None, None),
        },
    }
}

/// Whether a key starts with the two given characters.
fn key_starts_with(key: &str, first: char, second: char) -> (r: bool)
    ensures
        r == (key@.len() >= 2 && key@[0] == first && key@[1] == second),
{
    key.unicode_len() >= 2 && key.get_char(0) == first && key.get_char(1) == second
}

/// The label of one trusted core sensor.
fn label_for_core(key: &str, index: usize) -> (label: String)
    ensures
        label@ == core_label(key@, index as nat),
{
    let digits = unsigned_text(index as u64);
    if key_starts_with(key, 'T', 'e') {
        joined("E-Core ", digits.as_str())
    } else if key_starts_with(key, 'T', 'p') {
        joined("P-Core ", digits.as_str())
    } else {
        joined("CPU Core ", digits.as_str())
    }
}

/// The sensor list from one reading of each key.
fn label_sensors(keys: &Vec<&'static str>, readings: &Vec<Option<i32>>) -> (sensors: Vec<
    (String, String, i32),
>)
    requires
        keys@.len() == readings@.len(),
    ensures
        sensors_view(sensors@) == sensors_upto(
            keys@.map_values(|k: &str| k@),
            readings@,
            readings@.len() as int,
        ),
{
    let ghost names = keys@.map_values(|k: &str| k@);
    let mut sensors: Vec<(String, String, i32)> = Vec::new();
    let mut i: usize = 0;
    while i < readings.len()
        invariant
            i <= readings.len(),
            keys@.len() == readings@.len(),
            names == keys@.map_values(|k: &str| k@),
            sensors@.len() <= i,
            sensors_view(sensors@) == sensors_upto(names, readings@, i as int),
        decreases readings.len() - i,
    {
        match readings[i] {
            Some(m) => {
                if 15_000 < m && m < 125_000 {
                    let index = sensors.len() + 1;
                    let label = label_for_core(keys[i], index);
                    let ghost before = sensors@;
                    sensors.push((keys[i].to_owned(), label, round_to_tenth(m)));
                    proof {
                        assert(sensors_view(sensors@) =~= sensors_view(before).push(
                            (names[i as int], core_label(names[i as int], index as nat), to_tenth(
                                m as int,
                            ) as i32),
                        ));
                    }
                }
            },
            None => {},
        }
        i = i + 1;
    }
    sensors
}

/// Reads the CPU core keys and averages the hottest trusted readings.
pub fn get_cpu_temperature<F: Fn(String) -> Option<i32>>(read_key: F) -> (t: Option<i32>)
    requires
        forall|k: String| read_key.requires((k,)),
    ensures
        exists|readings: Seq<Option<i32>>|
            read_all(read_key, cpu_sensor_keys(), readings) && t == cpu_temperature_of(readings),
{
    let keys = cpu_keys();
    let readings = read_each(read_key, &keys);
    cpu_temperature(&readings)
}

/// Reads the GPU keys and reports the hottest trusted reading, standing in a
/// recent cached value when none is readable.
pub fn get_gpu_temperature<F: Fn(String) -> Option<i32>>(
    read_key: F,
    cache: Option<GpuTemperatureCache>,
    now_ms: u64,
) -> (r: (Option<i32>, Option<GpuTemperatureCache>))
    requires
        forall|k: String| read_key.requires((k,)),
    ensures
        exists|readings: Seq<Option<i32>>|
            read_all(read_key, gpu_sensor_keys(), readings) && r == gpu_temperature_of(
                readings,
                cache,
                now_ms,
            ),
{
    let keys = gpu_keys();
    let readings = read_each(read_key, &keys);
    gpu_temperature(&readings, cache, now_ms)
}

/// Reads the CPU core keys and lists every trusted core sensor with its key,
/// label and value.
pub fn get_all_sensors<F: Fn(String) -> Option<i32>>(read_key: F) -> (sensors: Vec<
    (String, String, i32),
>)
    requires
        forall|k: String| read_key.requires((k,)),
    ensures
        exists|readings: Seq<Option<i32>>|
            read_all(read_key, cpu_sensor_keys(), readings) && sensors_view(sensors@)
                == sensors_upto(cpu_sensor_keys(), readings, readings.len() as int),
{
    let keys = cpu_keys();
    let readings = read_each(read_key, &keys);
    label_sensors(&keys, &readings)
}

/// Whether the reading at `i` is present and trusted.
pub open spec fn readable_at(readings: Seq<Option<i32>>, i: int) -> bool {
    0 <= i < readings.len() && readings[i] is Some && plausible(readings[i].unwrap())
}

/// The hottest trusted reading exists exactly when some reading is trusted;
/// it is one of the trusted readings and no trusted reading is hotter.
proof fn lemma_max_plausible(readings: Seq<Option<i32>>)
    ensures
        max_plausible(readings) is Some <==> exists|i: int| #[trigger] readable_at(readings, i),
        max_plausible(readings) matches Some(m) ==> {
            &&& exists|j: int| #[trigger] readable_at(readings, j) && readings[j] == Some(m)
            &&& forall|i: int| #[trigger] readable_at(readings, i) ==> readings[i].unwrap() <= m
        },
    decreases readings.len(),
{
    if readings.len() > 0 {
        let rest = readings.drop_last();
        let n = readings.len() - 1;
        lemma_max_plausible(rest);
        assert forall|i: int| 0 <= i < n implies #[trigger] readable_at(readings, i) == readable_at(rest, i) by {
            assert(readings[i] == rest[i]);
        }
        if let Some(m) = max_plausible(readings) {
            if readable_at(readings, n) && readings[n] == Some(m) {
            } else {
                let j = choose|j: int| #[trigger] readable_at(rest, j) && rest[j] == Some(m);
                assert(readable_at(readings, j) && readings[j] == Some(m));
            }
            assert forall|i: int| #[trigger] readable_at(readings, i) implies readings[i].unwrap() <= m by {
                if i < n {
                    assert(readable_at(rest, i));
                }
            }
        } else {
            assert forall|i: int| !(#[trigger] readable_at(readings, i)) by {
                if 0 <= i < n {
                    assert(!readable_at(rest, i));
                }
            }
        }
    }
}

/// Whenever some GPU reading is trusted, that reading is used, whatever the
/// cache held: the result is the hottest trusted reading to the nearest
/// tenth of a degree (a multiple of 100 m°C within half a tenth, halves
/// rounding up), and the cache becomes that value, read now.
pub proof fn law_a_trusted_gpu_reading_is_always_used(
    readings: Seq<Option<i32>>,
    cache: Option<GpuTemperatureCache>,
    now_ms: u64,
)
    requires
        exists|i: int| #[trigger] readable_at(readings, i),
    ensures
        gpu_temperature_of(readings, cache, now_ms).0 matches Some(r) && {
            &&& gpu_temperature_of(readings, cache, now_ms).1 == Some(
                GpuTemperatureCache { millicelsius: r, read_at_ms: now_ms },
            )
            &&& exists|j: int|
                #[trigger] readable_at(readings, j) && {
                    let m = readings[j].unwrap();
                    &&& r % 100 == 0
                    &&& m - 50 < r <= m + 50
                    &&& forall|i: int| #[trigger] readable_at(readings, i) ==> readings[i].unwrap() <= m
                }
        },
{
    lemma_max_plausible(readings);
    let m = max_plausible(readings).unwrap();
    let j = choose|j: int| #[trigger] readable_at(readings, j) && readings[j] == Some(m);
    let t = to_tenth(m as int);
    assert(t == ((m + 50) / 100) * 100);
    assert(t % 100 == 0 && m - 50 < t <= m + 50) by (nonlinear_arith)
        requires
            t == ((m + 50) / 100) * 100,
            m > 0,
    ;
    assert(readable_at(readings, j));
}

/// The cache stands in only when no GPU reading is trusted: then a cached
/// value younger than the cache lifetime is returned, an older one gives no
/// temperature, and the cache is kept as it was.
pub proof fn law_gpu_cache_stands_in_only_without_a_reading(
    readings: Seq<Option<i32>>,
    cache: Option<GpuTemperatureCache>,
    now_ms: u64,
)
    requires
        forall|i: int| !(#[trigger] readable_at(readings, i)),
    ensures
        gpu_temperature_of(readings, cache, now_ms).1 == cache,
        gpu_temperature_of(readings, cache, now_ms).0 == match cache {
            Some(c) => if now_ms < c.read_at_ms + GPU_CACHE_MS {
                Some(c.millicelsius)
            } else {
                None
            },
            None => None::<i32>,
        },
{
    lemma_max_plausible(readings);
}

/// The trusted readings, in order: every present reading above 15 °C and
/// below 125 °C.
pub open spec fn trusted_readings(readings: Seq<Option<i32>>) -> Seq<i32> {
    readings.filter(|r: Option<i32>| r is Some && plausible(r.unwrap())).map_values(
        |r: Option<i32>| r.unwrap(),
    )
}

/// The sum of a list of readings.
pub open spec fn total(s: Seq<i32>) -> int
    decreases s.len(),
{
    if s.len() == 0 {
        0
    } else {
        total(s.drop_last()) + s.last()
    }
}

proof fn lemma_trusted_readings(readings: Seq<Option<i32>>)
    ensures
        plausible_values(readings) == trusted_readings(readings),
    decreases readings.len(),
{
    reveal(Seq::filter);
    if readings.len() > 0 {
        lemma_trusted_readings(readings.drop_last());
        let pred = |r: Option<i32>| r is Some && plausible(r.unwrap());
        let f = |r: Option<i32>| r.unwrap();
        let sub = readings.drop_last().filter(pred);
        if pred(readings.last()) {
            assert(sub.push(readings.last()).map_values(f) =~= sub.map_values(f).push(
                readings.last().unwrap(),
            ));
        }
    }
}

proof fn lemma_total_remove(s: Seq<i32>, m: int)
    requires
        0 <= m < s.len(),
    ensures
        total(s.remove(m)) == total(s) - s[m],
    decreases s.len(),
{
    if m == s.len() - 1 {
        assert(s.remove(m) =~= s.drop_last());
    } else {
        lemma_total_remove(s.drop_last(), m);
        assert(s.remove(m).drop_last() =~= s.drop_last().remove(m));
        assert(s.remove(m).last() == s.last());
    }
}

proof fn lemma_first_max_index(s: Seq<i32>, n: int)
    requires
        1 <= n <= s.len(),
    ensures
        0 <= first_max_index(s, n) < n,
    decreases n,
{
    if n > 1 {
        lemma_first_max_index(s, n - 1);
    }
}

/// Taking all the values takes their total.
proof fn lemma_largest_sum_all(s: Seq<i32>, k: nat)
    requires
        k >= s.len(),
    ensures
        largest_sum(s, k) == total(s),
    decreases k,
{
    if k > 0 && s.len() > 0 {
        let m = first_max_index(s, s.len() as int);
        lemma_first_max_index(s, s.len() as int);
        lemma_largest_sum_all(s.remove(m), (k - 1) as nat);
        lemma_total_remove(s, m);
    } else if s.len() == 0 {
    }
}

/// Every trusted value is plausible.
proof fn lemma_plausible_values_are_plausible(readings: Seq<Option<i32>>)
    ensures
        forall|i: int|
            0 <= i < plausible_values(readings).len() ==> 15_000 < #[trigger] plausible_values(
                readings,
            )[i] < 125_000,
    decreases readings.len(),
{
    if readings.len() > 0 {
        let rest = plausible_values(readings.drop_last());
        lemma_plausible_values_are_plausible(readings.drop_last());
        let all = plausible_values(readings);
        assert forall|i: int| 0 <= i < all.len() implies 15_000 < #[trigger] all[i] < 125_000 by {
            if i < rest.len() {
                assert(all[i] == rest[i]);
            }
        }
    }
}

/// The `k` largest values of a list whose values lie between `a` and `b`
/// sum to between `k` times `a` and `k` times `b` (for `k` up to its length).
proof fn lemma_largest_sum_bounds(s: Seq<i32>, k: nat, a: int, b: int)
    requires
        k <= s.len(),
        forall|i: int| 0 <= i < s.len() ==> a <= #[trigger] s[i] <= b,
    ensures
        k * a <= largest_sum(s, k) <= k * b,
    decreases k,
{
    if k > 0 {
        let m = first_max_index(s, s.len() as int);
        lemma_first_max_index(s, s.len() as int);
        let r = s.remove(m);
        assert forall|i: int| 0 <= i < r.len() implies a <= #[trigger] r[i] <= b by {
            if i < m {
                assert(r[i] == s[i]);
            } else {
                assert(r[i] == s[i + 1]);
            }
        }
        lemma_largest_sum_bounds(r, (k - 1) as nat, a, b);
        assert(a <= s[m] <= b);
        assert(largest_sum(s, k) == s[m] + largest_sum(r, (k - 1) as nat));
        let kk = k as int;
        assert((kk - 1) * a + a == kk * a && (kk - 1) * b + b == kk * b) by (nonlinear_arith);
    } else {
        assert(0 * a == 0 && 0 * b == 0);
    }
}

/// The CPU temperature exists exactly when some reading is trusted, and is
/// a whole tenth of a degree.  With at most four trusted readings it is
/// their mean, to the nearest tenth (halves rounding up); with more it is
/// the mean of the four hottest, so it always lies, within half a tenth,
/// between the coolest and the hottest trusted reading.
pub proof fn law_cpu_temperature_is_the_mean_of_the_hottest(
    readings: Seq<Option<i32>>,
    a: int,
    b: int,
)
    ensures
        ({
            let trusted = trusted_readings(readings);
            let k = trusted.len() as int;
            &&& cpu_temperature_of(readings) is None <==> k == 0
            &&& cpu_temperature_of(readings) matches Some(t) ==> {
                &&& t % 100 == 0
                &&& k <= 4 ==> k * t - 50 * k <= total(trusted) < k * t + 50 * k
                &&& (forall|i: int| 0 <= i < k ==> a <= #[trigger] trusted[i] <= b) ==> a - 50 < t
                    <= b + 50
            }
        }),
{
    lemma_trusted_readings(readings);
    let values = plausible_values(readings);
    let n = values.len() as int;
    if n > 0 {
        let k: int = if n < 4 { n } else { 4 };
        let sum = largest_sum(values, k as nat);
        let q = (sum + 50 * k) / (100 * k);
        let t = q * 100;
        lemma_plausible_values_are_plausible(readings);
        lemma_largest_sum_bounds(values, k as nat, 15_001, 124_999);
        assert(k * t - 50 * k <= sum < k * t + 50 * k && t % 100 == 0) by (nonlinear_arith)
            requires
                q == (sum + 50 * k) / (100 * k),
                t == q * 100,
                k > 0,
        ;
        assert(14_900 < t < 125_100) by (nonlinear_arith)
            requires
                k * t - 50 * k <= sum < k * t + 50 * k,
                k * 15_001 <= sum <= k * 124_999,
                k > 0,
        ;
        assert(cpu_temperature_of(readings) == Some(t as i32));
        if n <= 4 {
            lemma_largest_sum_all(values, k as nat);
            assert(sum == total(values));
        }
        if forall|i: int| 0 <= i < n ==> a <= #[trigger] values[i] <= b {
            lemma_largest_sum_bounds(values, k as nat, a, b);
            assert(a - 50 < t <= b + 50) by (nonlinear_arith)
                requires
                    k * t - 50 * k <= sum < k * t + 50 * k,
                    k * a <= sum <= k * b,
                    k > 0,
            ;
        }
    }
}

} // verus!
