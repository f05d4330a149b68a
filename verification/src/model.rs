//! The values that the accessors report.

use vstd::prelude::*;

verus! {

/// Number of bytes in a kibibyte.
pub const BYTES_PER_KIB: u64 = 1024;

/// Number of bytes in a gibibyte.
pub const BYTES_PER_GIB: u64 = 1_073_741_824;

/// Memory in use and memory installed, both in bytes.
///
/// The figures that a report shows are ratios of these two: the amounts in
/// gibibytes are `used_bytes / BYTES_PER_GIB` and
/// `total_bytes / BYTES_PER_GIB`, the usage in percent is
/// `100 * used_bytes / total_bytes`. `used_bytes` is negative where the
/// source reported more memory available than installed.
#[derive(Clone, Copy, Debug, PartialEq, Eq, Structural)]
pub struct RamInfo {
    pub used_bytes: i128,
    pub total_bytes: u128,
}

impl RamInfo {
    /// Some memory is installed, so that the usage in percent is defined.
    pub open spec fn wf(self) -> bool {
        self.total_bytes > 0
    }

    /// The usage in percent, `100 * used_bytes / total_bytes`, lies between
    /// `low` and `high`, both included.
    pub open spec fn percent_between(self, low: int, high: int) -> bool {
        low * self.total_bytes <= 100 * self.used_bytes <= high * self.total_bytes
    }

    /// The value for `total` kibibytes installed of which `available` are
    /// available; none where nothing is installed.
    pub open spec fn kib_reading(total: int, available: int) -> Option<RamInfo> {
        if total == 0 {
            None
        } else {
            Some(
                RamInfo {
                    used_bytes: ((total - available) * BYTES_PER_KIB) as i128,
                    total_bytes: (total * BYTES_PER_KIB) as u128,
                },
            )
        }
    }

    /// The value for `total` bytes installed of which `used` are in use;
    /// none where nothing is installed.
    pub open spec fn byte_reading(total: int, used: int) -> Option<RamInfo> {
        if total == 0 {
            None
        } else {
            Some(RamInfo { used_bytes: used as i128, total_bytes: total as u128 })
        }
    }

    /// Converting amounts in kibibytes to bytes loses nothing: the bytes,
    /// divided by the bytes in a kibibyte, give the kibibytes back, and the
    /// used and the available amount add up to the total.
    pub proof fn lemma_kib_round_trip(total: int, available: int)
        requires
            0 < total <= u64::MAX,
            0 <= available <= u64::MAX,
        ensures
            Self::kib_reading(total, available) matches Some(info) && {
                &&& info.wf()
                &&& info.total_bytes == total * BYTES_PER_KIB
                &&& info.used_bytes == (total - available) * BYTES_PER_KIB
                &&& info.total_bytes as int / (BYTES_PER_KIB as int) == total
                &&& info.used_bytes as int / (BYTES_PER_KIB as int) == total - available
                &&& info.used_bytes + available * BYTES_PER_KIB == info.total_bytes
            },
    {
    }

    /// Where no more is available than installed, the usage lies between 0
    /// and 100 percent.
    pub proof fn lemma_kib_percent_range(total: int, available: int)
        requires
            0 < total <= u64::MAX,
            0 <= available <= total,
        ensures
            Self::kib_reading(total, available) matches Some(info) && info.percent_between(0, 100),
    {
        Self::lemma_kib_round_trip(total, available);
    }

    /// Builds the value from an installed and an available amount in
    /// kibibytes.
    pub fn from_kib(total: u64, available: u64) -> (info: Option<RamInfo>)
        ensures
            info == Self::kib_reading(total as int, available as int),
            info matches Some(i) ==> {
                &&& i.wf()
                &&& i.total_bytes == total * BYTES_PER_KIB
                &&& i.used_bytes == (total - available) * BYTES_PER_KIB
            },
    {
        if total == 0 {
            None
        } else {
            let used_kib: i128 = total as i128 - available as i128;
            Some(
                RamInfo {
                    used_bytes: used_kib * 1024,
                    total_bytes: (total as u128) * 1024,
                },
            )
        }
    }

    /// Builds the value from an installed and a used amount in bytes.
    pub fn from_bytes(total: u64, used: u64) -> (info: Option<RamInfo>)
        ensures
            info == Self::byte_reading(total as int, used as int),
            info matches Some(i) ==> i.wf() && i.total_bytes == total && i.used_bytes == used,
    {
        if total == 0 {
            None
        } else {
            Some(RamInfo { used_bytes: used as i128, total_bytes: total as u128 })
        }
    }
}

/// A processor description as plain values: model name, number of physical
/// cores, number of logical threads.
pub open spec fn cpu_view(info: Option<(String, usize, usize)>) -> Option<(Seq<char>, int, int)> {
    match info {
        Some((model, cores, threads)) => Some((model@, cores as int, threads as int)),
        None => None,
    }
}

} // verus!
