//! One-shot IMU bias calibration.
//!
//! Over a window of samples from a stationary sensor, each axis tracks its
//! running minimum and maximum; the offset is the midpoint of the observed
//! swing. A read failure while sampling is fatal to startup, so the shell
//! only calls in here once a full window was read.

use vstd::prelude::*;
use vstd::arithmetic::div_mod::{lemma_div_nonincreasing, lemma_div_pos_is_pos};
use crate::data::ImuData;

verus! {

/// Smallest sample of a nonempty window.
pub open spec fn seq_min(s: Seq<i32>) -> int
    recommends
        s.len() >= 1,
    decreases s.len(),
{
    if s.len() <= 1 {
        s[0] as int
    } else {
        let m = seq_min(s.drop_first());
        if s[0] <= m {
            s[0] as int
        } else {
            m
        }
    }
}

/// Largest sample of a nonempty window.
pub open spec fn seq_max(s: Seq<i32>) -> int
    recommends
        s.len() >= 1,
    decreases s.len(),
{
    if s.len() <= 1 {
        s[0] as int
    } else {
        let m = seq_max(s.drop_first());
        if s[0] >= m {
            s[0] as int
        } else {
            m
        }
    }
}

/// Midpoint of an observed swing: `lo + (hi - lo) / 2`.
pub open spec fn midpoint(lo: int, hi: int) -> int {
    lo + (hi - lo) / 2
}

/// The per-axis accelerometer readings of a sample window.
pub open spec fn accel_x_axis(s: Seq<ImuData>) -> Seq<i32> {
    s.map_values(|d: ImuData| d.accel.x)
}

pub open spec fn accel_y_axis(s: Seq<ImuData>) -> Seq<i32> {
    s.map_values(|d: ImuData| d.accel.y)
}

pub open spec fn accel_z_axis(s: Seq<ImuData>) -> Seq<i32> {
    s.map_values(|d: ImuData| d.accel.z)
}

/// The per-axis gyroscope readings of a sample window.
pub open spec fn gyro_x_axis(s: Seq<ImuData>) -> Seq<i32> {
    s.map_values(|d: ImuData| d.gyro.x)
}

pub open spec fn gyro_y_axis(s: Seq<ImuData>) -> Seq<i32> {
    s.map_values(|d: ImuData| d.gyro.y)
}

pub open spec fn gyro_z_axis(s: Seq<ImuData>) -> Seq<i32> {
    s.map_values(|d: ImuData| d.gyro.z)
}

/// Minimum and maximum are element values, ordered.
pub proof fn lemma_seq_min_max_facts(s: Seq<i32>)
    requires
        s.len() >= 1,
    ensures
        i32::MIN <= seq_min(s) <= seq_max(s) <= i32::MAX,
    decreases s.len(),
{
    if s.len() > 1 {
        lemma_seq_min_max_facts(s.drop_first());
    }
}

/// Extending a window by one sample moves its minimum and maximum as the
/// sample demands.
pub proof fn lemma_seq_min_max_push(s: Seq<i32>, v: i32)
    requires
        s.len() >= 1,
    ensures
        seq_min(s.push(v)) == (if v <= seq_min(s) {
            v as int
        } else {
            seq_min(s)
        }),
        seq_max(s.push(v)) == (if v >= seq_max(s) {
            v as int
        } else {
            seq_max(s)
        }),
    decreases s.len(),
{
    if s.len() == 1 {
        let p = s.push(v);
        assert(p.drop_first() =~= seq![v]);
        assert(seq_min(p.drop_first()) == v as int);
        assert(seq_max(p.drop_first()) == v as int);
    } else {
        lemma_seq_min_max_push(s.drop_first(), v);
        assert(s.push(v).drop_first() =~= s.drop_first().push(v));
    }
}

/// A window of one constant has that constant as both extremes, so its
/// calibration offset is the constant itself.
pub proof fn lemma_constant_extremes(s: Seq<i32>)
    requires
        s.len() >= 1,
        forall|i: int| 0 <= i < s.len() ==> #[trigger] s[i] == s[0],
    ensures
        seq_min(s) == s[0],
        seq_max(s) == s[0],
        midpoint(seq_min(s), seq_max(s)) == s[0],
    decreases s.len(),
{
    if s.len() > 1 {
        assert forall|i: int| 0 <= i < s.drop_first().len() implies #[trigger] s.drop_first()[i]
            == s.drop_first()[0] by {
            assert(s.drop_first()[i] == s[i + 1]);
        }
        lemma_constant_extremes(s.drop_first());
    }
}

/// Calibration on a constant-signal source yields exactly that constant as
/// the offset, on every axis and for any sample count.
pub proof fn lemma_calibration_constant_signal(samples: Seq<ImuData>, d: ImuData)
    requires
        samples.len() >= 1,
        forall|i: int| 0 <= i < samples.len() ==> #[trigger] samples[i] == d,
    ensures
        midpoint(seq_min(accel_x_axis(samples)), seq_max(accel_x_axis(samples))) == d.accel.x,
        midpoint(seq_min(accel_y_axis(samples)), seq_max(accel_y_axis(samples))) == d.accel.y,
        midpoint(seq_min(accel_z_axis(samples)), seq_max(accel_z_axis(samples))) == d.accel.z,
        midpoint(seq_min(gyro_x_axis(samples)), seq_max(gyro_x_axis(samples))) == d.gyro.x,
        midpoint(seq_min(gyro_y_axis(samples)), seq_max(gyro_y_axis(samples))) == d.gyro.y,
        midpoint(seq_min(gyro_z_axis(samples)), seq_max(gyro_z_axis(samples))) == d.gyro.z,
{
    lemma_constant_extremes(accel_x_axis(samples));
    lemma_constant_extremes(accel_y_axis(samples));
    lemma_constant_extremes(accel_z_axis(samples));
    lemma_constant_extremes(gyro_x_axis(samples));
    lemma_constant_extremes(gyro_y_axis(samples));
    lemma_constant_extremes(gyro_z_axis(samples));
}

/// Per-axis accelerometer and gyroscope bias, computed once before the
/// steady-state loop and immutable thereafter.
#[derive(Debug, Clone, Copy, PartialEq, Eq, Structural)]
pub struct ImuCalibrationOffset {
    pub ax_offset: i32,
    pub ay_offset: i32,
    pub az_offset: i32,
    pub gx_offset: i32,
    pub gy_offset: i32,
    pub gz_offset: i32,
}

fn min_i32(a: i32, b: i32) -> (r: i32)
    ensures
        r == (if b <= a {
            b as int
        } else {
            a as int
        }),
{
    if b <= a {
        b
    } else {
        a
    }
}

fn max_i32(a: i32, b: i32) -> (r: i32)
    ensures
        r == (if b >= a {
            b as int
        } else {
            a as int
        }),
{
    if b >= a {
        b
    } else {
        a
    }
}

fn midpoint_i32(lo: i32, hi: i32) -> (r: i32)
    requires
        lo <= hi,
    ensures
        r == midpoint(lo as int, hi as int),
{
    let d: i64 = (hi as i64) - (lo as i64);
    let half: i64 = (((d as u64) / 2u64) as i64);
    proof {
        lemma_div_pos_is_pos(d as int, 2);
        lemma_div_nonincreasing(d as int, 2);
    }
    ((lo as i64) + half) as i32
}

/// Sample accelerometer and gyro data and calculate the device specific
/// offset: per axis, the midpoint between the smallest and largest reading
/// seen over the stationary window.
pub fn calibrate_imu(samples: &Vec<ImuData>) -> (r: ImuCalibrationOffset)
    requires
        samples@.len() >= 1,
    ensures
        r.ax_offset == midpoint(
            seq_min(accel_x_axis(samples@)),
            seq_max(accel_x_axis(samples@)),
        ),
        r.ay_offset == midpoint(
            seq_min(accel_y_axis(samples@)),
            seq_max(accel_y_axis(samples@)),
        ),
        r.az_offset == midpoint(
            seq_min(accel_z_axis(samples@)),
            seq_max(accel_z_axis(samples@)),
        ),
        r.gx_offset == midpoint(seq_min(gyro_x_axis(samples@)), seq_max(gyro_x_axis(samples@))),
        r.gy_offset == midpoint(seq_min(gyro_y_axis(samples@)), seq_max(gyro_y_axis(samples@))),
        r.gz_offset == midpoint(seq_min(gyro_z_axis(samples@)), seq_max(gyro_z_axis(samples@))),
{
    let ghost axs = accel_x_axis(samples@);
    let ghost ays = accel_y_axis(samples@);
    let ghost azs = accel_z_axis(samples@);
    let ghost gxs = gyro_x_axis(samples@);
    let ghost gys = gyro_y_axis(samples@);
    let ghost gzs = gyro_z_axis(samples@);
    let n = samples.len();
    let first = samples[0];
    let mut ax_min = first.accel.x;
    let mut ax_max = first.accel.x;
    let mut ay_min = first.accel.y;
    let mut ay_max = first.accel.y;
    let mut az_min = first.accel.z;
    let mut az_max = first.accel.z;
    let mut gx_min = first.gyro.x;
    let mut gx_max = first.gyro.x;
    let mut gy_min = first.gyro.y;
    let mut gy_max = first.gyro.y;
    let mut gz_min = first.gyro.z;
    let mut gz_max = first.gyro.z;
    proof {
        assert(axs.take(1) =~= seq![axs[0]]);
        assert(ays.take(1) =~= seq![ays[0]]);
        assert(azs.take(1) =~= seq![azs[0]]);
        assert(gxs.take(1) =~= seq![gxs[0]]);
        assert(gys.take(1) =~= seq![gys[0]]);
        assert(gzs.take(1) =~= seq![gzs[0]]);
    }
    let mut i: usize = 1;
    while i < n
        invariant
            1 <= i <= n,
            n == samples@.len(),
            axs == accel_x_axis(samples@),
            ays == accel_y_axis(samples@),
            azs == accel_z_axis(samples@),
            gxs == gyro_x_axis(samples@),
            gys == gyro_y_axis(samples@),
            gzs == gyro_z_axis(samples@),
            ax_min == seq_min(axs.take(i as int)),
            ax_max == seq_max(axs.take(i as int)),
            ay_min == seq_min(ays.take(i as int)),
            ay_max == seq_max(ays.take(i as int)),
            az_min == seq_min(azs.take(i as int)),
            az_max == seq_max(azs.take(i as int)),
            gx_min == seq_min(gxs.take(i as int)),
            gx_max == seq_max(gxs.take(i as int)),
            gy_min == seq_min(gys.take(i as int)),
            gy_max == seq_max(gys.take(i as int)),
            gz_min == seq_min(gzs.take(i as int)),
            gz_max == seq_max(gzs.take(i as int)),
        decreases n - i,
    {
        let d = samples[i];
        proof {
            assert(axs.take(i + 1) =~= axs.take(i as int).push(axs[i as int]));
            assert(ays.take(i + 1) =~= ays.take(i as int).push(ays[i as int]));
            assert(azs.take(i + 1) =~= azs.take(i as int).push(azs[i as int]));
            assert(gxs.take(i + 1) =~= gxs.take(i as int).push(gxs[i as int]));
            assert(gys.take(i + 1) =~= gys.take(i as int).push(gys[i as int]));
            assert(gzs.take(i + 1) =~= gzs.take(i as int).push(gzs[i as int]));
            lemma_seq_min_max_push(axs.take(i as int), axs[i as int]);
            lemma_seq_min_max_push(ays.take(i as int), ays[i as int]);
            lemma_seq_min_max_push(azs.take(i as int), azs[i as int]);
            lemma_seq_min_max_push(gxs.take(i as int), gxs[i as int]);
            lemma_seq_min_max_push(gys.take(i as int), gys[i as int]);
            lemma_seq_min_max_push(gzs.take(i as int), gzs[i as int]);
        }
        ax_min = min_i32(ax_min, d.accel.x);
        ax_max = max_i32(ax_max, d.accel.x);
        ay_min = min_i32(ay_min, d.accel.y);
        ay_max = max_i32(ay_max, d.accel.y);
        az_min = min_i32(az_min, d.accel.z);
        az_max = max_i32(az_max, d.accel.z);
        gx_min = min_i32(gx_min, d.gyro.x);
        gx_max = max_i32(gx_max, d.gyro.x);
        gy_min = min_i32(gy_min, d.gyro.y);
        gy_max = max_i32(gy_max, d.gyro.y);
        gz_min = min_i32(gz_min, d.gyro.z);
        gz_max = max_i32(gz_max, d.gyro.z);
        i = i + 1;
    }
    proof {
        assert(axs.take(n as int) =~= axs);
        assert(ays.take(n as int) =~= ays);
        assert(azs.take(n as int) =~= azs);
        assert(gxs.take(n as int) =~= gxs);
        assert(gys.take(n as int) =~= gys);
        assert(gzs.take(n as int) =~= gzs);
        lemma_seq_min_max_facts(axs);
        lemma_seq_min_max_facts(ays);
        lemma_seq_min_max_facts(azs);
        lemma_seq_min_max_facts(gxs);
        lemma_seq_min_max_facts(gys);
        lemma_seq_min_max_facts(gzs);
    }
    ImuCalibrationOffset {
        ax_offset: midpoint_i32(ax_min, ax_max),
        ay_offset: midpoint_i32(ay_min, ay_max),
        az_offset: midpoint_i32(az_min, az_max),
        gx_offset: midpoint_i32(gx_min, gx_max),
        gy_offset: midpoint_i32(gy_min, gy_max),
        gz_offset: midpoint_i32(gz_min, gz_max),
    }
}

/// Clamped difference, standing in for the unbounded subtraction of the
/// calibration step.
pub open spec fn sat_sub_i32(a: int, b: int) -> int {
    if a - b > i32::MAX {
        i32::MAX as int
    } else if a - b < i32::MIN {
        i32::MIN as int
    } else {
        a - b
    }
}

fn sub_sat(a: i32, b: i32) -> (r: i32)
    ensures
        r == sat_sub_i32(a as int, b as int),
{
    let d: i64 = (a as i64) - (b as i64);
    if d > i32::MAX as i64 {
        i32::MAX
    } else if d < i32::MIN as i64 {
        i32::MIN
    } else {
        d as i32
    }
}

impl ImuCalibrationOffset {
    /// Removes this bias from one raw sample, axis by axis, saturating at
    /// the integer bounds.
    pub fn apply(&self, sample: ImuData) -> (r: ImuData)
        ensures
            r.accel.x == sat_sub_i32(sample.accel.x as int, self.ax_offset as int),
            r.accel.y == sat_sub_i32(sample.accel.y as int, self.ay_offset as int),
            r.accel.z == sat_sub_i32(sample.accel.z as int, self.az_offset as int),
            r.gyro.x == sat_sub_i32(sample.gyro.x as int, self.gx_offset as int),
            r.gyro.y == sat_sub_i32(sample.gyro.y as int, self.gy_offset as int),
            r.gyro.z == sat_sub_i32(sample.gyro.z as int, self.gz_offset as int),
    {
        ImuData {
            accel: crate::data::AccelerometerData {
                x: sub_sat(sample.accel.x, self.ax_offset),
                y: sub_sat(sample.accel.y, self.ay_offset),
                z: sub_sat(sample.accel.z, self.az_offset),
            },
            gyro: crate::data::GyroscopeData {
                x: sub_sat(sample.gyro.x, self.gx_offset),
                y: sub_sat(sample.gyro.y, self.gy_offset),
                z: sub_sat(sample.gyro.z, self.gz_offset),
            },
        }
    }
}

} // verus!
