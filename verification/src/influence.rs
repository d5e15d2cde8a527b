//! Receiver layout of the pressure field and the earliest-arrival record kept
//! for each receiver.
//!
//! Per-receiver arrays have the shape `(nx, ny, nz)`: the receiver axes in grid
//! mode, `(n_receivers, 1, 1)` in array mode. They are flattened row-major:
//! the entry `(ix, iy, iz)` is at `(ix * ny + iy) * nz + iz`.
use vstd::prelude::*;
use crate::binary32::Binary32;
use crate::binary32::zero;
use crate::binary32::INFINITY_BITS;
use crate::binary32::ZERO_BITS;
use crate::input::config::SimulationConfig;
use crate::input::config::string_is;
use crate::grid::lemma_index_in_range;
use crate::grid::lemma_prefix_product_bounded;

verus! {

// ----- earliest arrivals -----

/// The earliest arrival seen at a receiver: its delay and its amplitude.
#[derive(Clone, Copy, Debug, PartialEq, Eq, Structural)]
pub struct ArrivalRecord {
    pub delay_s: Binary32,
    pub amplitude: Binary32,
}

/// The record of a receiver that nothing has reached: delay `+inf`, amplitude `0`.
pub open spec fn spec_no_arrival() -> ArrivalRecord {
    ArrivalRecord { delay_s: Binary32 { bits: INFINITY_BITS }, amplitude: Binary32 { bits: ZERO_BITS } }
}

/// The record of a receiver that nothing has reached.
pub fn no_arrival() -> (r: ArrivalRecord)
    ensures
        r == spec_no_arrival(),
{
    ArrivalRecord { delay_s: Binary32 { bits: INFINITY_BITS }, amplitude: Binary32 { bits: ZERO_BITS } }
}

/// A beam contribution replaces the record when it arrives earlier, or at the
/// same time with a larger absolute amplitude.
pub open spec fn recorded(rec: ArrivalRecord, delay_s: Binary32, amplitude: Binary32) -> ArrivalRecord {
    if delay_s.spec_lt(rec.delay_s) || (delay_s.spec_eq(rec.delay_s) && rec.amplitude.spec_abs().spec_lt(
        amplitude.spec_abs(),
    )) {
        ArrivalRecord { delay_s, amplitude }
    } else {
        rec
    }
}

/// Record one beam contribution at a receiver.
pub fn record_arrival(rec: &mut ArrivalRecord, delay_s: Binary32, amplitude: Binary32)
    ensures
        *final(rec) == recorded(*old(rec), delay_s, amplitude),
{
    if delay_s.less_than(&rec.delay_s) || (delay_s.equals(&rec.delay_s) && rec.amplitude.abs().less_than(
        &amplitude.abs(),
    )) {
        *rec = ArrivalRecord { delay_s, amplitude };
    }
}

/// Merging the records of two partial fields keeps `src` only when it is
/// strictly earlier.
pub open spec fn merged(dst: ArrivalRecord, src: ArrivalRecord) -> ArrivalRecord {
    if src.delay_s.spec_lt(dst.delay_s) {
        src
    } else {
        dst
    }
}

/// Merge the record of a partial field into `dst`.
pub fn merge_arrival(dst: &mut ArrivalRecord, src: &ArrivalRecord)
    ensures
        *final(dst) == merged(*old(dst), *src),
{
    if src.delay_s.less_than(&dst.delay_s) {
        *dst = *src;
    }
}

/// Receiver by receiver merge of two record arrays.
pub open spec fn merged_fields(dst: Seq<ArrivalRecord>, src: Seq<ArrivalRecord>) -> Seq<ArrivalRecord> {
    Seq::new(dst.len(), |i: int| merged(dst[i], src[i]))
}

/// Merge the records of a partial field into `dst`, receiver by receiver.
pub fn merge_arrival_fields(dst: &mut Vec<ArrivalRecord>, src: &Vec<ArrivalRecord>)
    requires
        old(dst)@.len() == src@.len(),
    ensures
        final(dst)@ == merged_fields(old(dst)@, src@),
{
    let ghost d0 = dst@;
    let mut i: usize = 0;
    while i < dst.len()
        invariant
            dst@.len() == d0.len(),
            d0.len() == src@.len(),
            i <= dst@.len(),
            forall|j: int| 0 <= j < i ==> #[trigger] dst@[j] == merged(d0[j], src@[j]),
            forall|j: int| i <= j < dst@.len() ==> #[trigger] dst@[j] == d0[j],
        decreases dst.len() - i,
    {
        let mut r = dst[i];
        merge_arrival(&mut r, &src[i]);
        dst.set(i, r);
        i = i + 1;
    }
    assert(dst@ =~= merged_fields(d0, src@));
}

/// A record keeps the earliest arrival: an earlier contribution replaces it,
/// a later one leaves it, a simultaneous one replaces it only with a larger
/// absolute amplitude, and a NaN delay never replaces it.
pub proof fn lemma_record_arrival_cases(rec: ArrivalRecord, delay_s: Binary32, amplitude: Binary32)
    ensures
        !delay_s.spec_is_nan() && !rec.delay_s.spec_is_nan() && delay_s.order_key() < rec.delay_s.order_key()
            ==> recorded(rec, delay_s, amplitude) == (ArrivalRecord { delay_s, amplitude }),
        !delay_s.spec_is_nan() && !rec.delay_s.spec_is_nan() && delay_s.order_key() > rec.delay_s.order_key()
            ==> recorded(rec, delay_s, amplitude) == rec,
        !delay_s.spec_is_nan() && !rec.delay_s.spec_is_nan() && delay_s.order_key() == rec.delay_s.order_key()
            ==> recorded(rec, delay_s, amplitude) == if !amplitude.spec_is_nan() && !rec.amplitude.spec_is_nan()
            && rec.amplitude.magnitude() < amplitude.magnitude() {
            ArrivalRecord { delay_s, amplitude }
        } else {
            rec
        },
        delay_s.spec_is_nan() || rec.delay_s.spec_is_nan() ==> recorded(rec, delay_s, amplitude) == rec,
{
}

/// A merge takes the record of `src` exactly when `src` arrives strictly
/// earlier, and keeps `dst` otherwise (ties and NaN delays included).
pub proof fn lemma_merge_arrival_cases(dst: ArrivalRecord, src: ArrivalRecord)
    ensures
        !src.delay_s.spec_is_nan() && !dst.delay_s.spec_is_nan() && src.delay_s.order_key() < dst.delay_s.order_key()
            ==> merged(dst, src) == src,
        src.delay_s.spec_is_nan() || dst.delay_s.spec_is_nan() || dst.delay_s.order_key() <= src.delay_s.order_key()
            ==> merged(dst, src) == dst,
{
}

/// Merging two fields merges every receiver: the result has one record per
/// receiver, and at each index it is the record of `src` when that arrives
/// strictly earlier, the record of `dst` otherwise.
pub proof fn lemma_merged_fields_every_receiver(dst: Seq<ArrivalRecord>, src: Seq<ArrivalRecord>)
    requires
        dst.len() == src.len(),
    ensures
        merged_fields(dst, src).len() == dst.len(),
        forall|i: int| 0 <= i < dst.len() ==> {
            &&& (src[i].delay_s.spec_lt(dst[i].delay_s) ==> #[trigger] merged_fields(dst, src)[i] == src[i])
            &&& (!src[i].delay_s.spec_lt(dst[i].delay_s) ==> merged_fields(dst, src)[i] == dst[i])
        },
{
}

/// Merging is associative on records with non-NaN delays, so a parallel
/// reduction of partial fields gives the same records in any grouping.
pub proof fn lemma_merge_associative(a: ArrivalRecord, b: ArrivalRecord, c: ArrivalRecord)
    requires
        !a.delay_s.spec_is_nan(),
        !b.delay_s.spec_is_nan(),
        !c.delay_s.spec_is_nan(),
    ensures
        merged(merged(a, b), c) == merged(a, merged(b, c)),
{
}

/// Receiver by receiver, merging whole fields is associative too.
pub proof fn lemma_merge_fields_associative(a: Seq<ArrivalRecord>, b: Seq<ArrivalRecord>, c: Seq<ArrivalRecord>)
    requires
        a.len() == b.len(),
        b.len() == c.len(),
        forall|i: int| 0 <= i < a.len() ==> !(#[trigger] a[i]).delay_s.spec_is_nan(),
        forall|i: int| 0 <= i < b.len() ==> !(#[trigger] b[i]).delay_s.spec_is_nan(),
        forall|i: int| 0 <= i < c.len() ==> !(#[trigger] c[i]).delay_s.spec_is_nan(),
    ensures
        merged_fields(merged_fields(a, b), c) == merged_fields(a, merged_fields(b, c)),
{
    assert forall|i: int| 0 <= i < a.len() implies #[trigger] merged_fields(merged_fields(a, b), c)[i]
        == merged_fields(a, merged_fields(b, c))[i] by {
        lemma_merge_associative(a[i], b[i], c[i]);
    }
    assert(merged_fields(merged_fields(a, b), c) =~= merged_fields(a, merged_fields(b, c)));
}

/// The empty record is a neutral element of merging: on the right always, on
/// the left for every record that arrives before `+inf`.
pub proof fn lemma_merge_no_arrival(r: ArrivalRecord)
    ensures
        merged(r, spec_no_arrival()) == r,
        r.delay_s.spec_lt(spec_no_arrival().delay_s) ==> merged(spec_no_arrival(), r) == r,
{
}

/// A merge keeps one of the two records: the earlier one, and `dst` on a tie.
pub proof fn lemma_merge_keeps_earliest(dst: ArrivalRecord, src: ArrivalRecord)
    requires
        !dst.delay_s.spec_is_nan(),
        !src.delay_s.spec_is_nan(),
    ensures
        merged(dst, src) == dst || merged(dst, src) == src,
        merged(dst, src).delay_s.order_key() == if src.delay_s.order_key() < dst.delay_s.order_key() {
            src.delay_s.order_key()
        } else {
            dst.delay_s.order_key()
        },
{
}

/// Recording keeps the earliest delay seen so far.
pub proof fn lemma_record_keeps_earliest(rec: ArrivalRecord, delay_s: Binary32, amplitude: Binary32)
    requires
        !rec.delay_s.spec_is_nan(),
        !delay_s.spec_is_nan(),
    ensures
        recorded(rec, delay_s, amplitude).delay_s.order_key() == if delay_s.order_key() < rec.delay_s.order_key() {
            delay_s.order_key()
        } else {
            rec.delay_s.order_key()
        },
{
}

// ----- caustics -----

/// The ray-tube determinant changes sign between two points of a beam (a
/// caustic): it falls to `<= 0` from `> 0`, or rises to `>= 0` from `< 0`.
pub open spec fn spec_crosses_caustic(prev_det_q: Binary32, det_q: Binary32) -> bool {
    (det_q.spec_le(zero()) && zero().spec_lt(prev_det_q)) || (zero().spec_le(det_q) && prev_det_q.spec_lt(zero()))
}

/// Whether a phase shift of a quarter period applies between two points of a
/// beam with these ray-tube determinants.
pub fn crosses_caustic(prev_det_q: Binary32, det_q: Binary32) -> (r: bool)
    ensures
        r == spec_crosses_caustic(prev_det_q, det_q),
{
    let z = Binary32 { bits: ZERO_BITS };
    (det_q.less_or_equal(&z) && z.less_than(&prev_det_q)) || (z.less_or_equal(&det_q) && prev_det_q.less_than(&z))
}

/// A caustic is exactly a change of sign of the ray-tube determinant,
/// whatever the magnitudes: from positive to zero or negative, or from
/// negative to zero or positive. A NaN determinant is never a caustic.
pub proof fn lemma_caustic_is_sign_change(prev_det_q: Binary32, det_q: Binary32)
    ensures
        spec_crosses_caustic(prev_det_q, det_q) <==> (!prev_det_q.spec_is_nan() && !det_q.spec_is_nan() && (
        (prev_det_q.order_key() > 0 && det_q.order_key() <= 0) || (prev_det_q.order_key() < 0
            && det_q.order_key() >= 0))),
{
}

// ----- receiver layout -----

/// What `str::to_lowercase` returns for these characters (Unicode lowercase mapping).
pub uninterp spec fn lowercase(s: Seq<char>) -> Seq<char>;

/// `str::to_lowercase`: the contract names its result `lowercase` of the
/// characters of `s`; no property of the Unicode mapping is stated.
#[verifier::external_body]
fn to_lowercase(s: &str) -> (r: String)
    ensures
        r@ == lowercase(s@),
{
    s.to_lowercase()
}

/// The receivers are an explicit list of positions: the lowercase form of the
/// configured type is `"array"`.
pub fn is_array_mode(config_type: &String) -> (r: bool)
    ensures
        r == (lowercase(config_type@) == "array"@),
{
    let lower = to_lowercase(config_type.as_str());
    string_is(&lower, "array")
}

/// Receiver coordinates and the shape of the per-receiver arrays.
pub struct ReceiverLayout {
    pub is_array: bool,
    /// Grid axes (empty in array mode).
    pub x_m: Vec<Binary32>,
    pub y_m: Vec<Binary32>,
    pub z_m: Vec<Binary32>,
    /// Receiver positions (array mode only).
    pub receiver_positions_m: Option<Vec<[Binary32; 3]>>,
    pub n_freq: usize,
    pub nx: usize,
    pub ny: usize,
    pub nz: usize,
}

impl ReceiverLayout {
    /// The number of receivers.
    pub open spec fn receiver_count(&self) -> int {
        self.nx * self.ny * self.nz
    }

    /// The layout of the receivers of `config`, in the given mode.
    pub open spec fn describes(&self, config: SimulationConfig, is_array: bool) -> bool {
        let rc = config.receivers;
        &&& self.is_array == is_array
        &&& self.n_freq == config.source.freq_hz@.len()
        &&& if is_array {
            &&& self.x_m@.len() == 0 && self.y_m@.len() == 0 && self.z_m@.len() == 0
            &&& self.nx == rc.x_rcvr_m@.len() && self.ny == 1 && self.nz == 1
            &&& self.receiver_positions_m matches Some(p) && p@.len() == rc.x_rcvr_m@.len()
                && forall|i: int| 0 <= i < p@.len() ==> #[trigger] p@[i] == [rc.x_rcvr_m@[i], rc.y_rcvr_m@[i], rc.z_rcvr_m@[i]]
        } else {
            &&& self.x_m@ == rc.x_rcvr_m@ && self.y_m@ == rc.y_rcvr_m@ && self.z_m@ == rc.z_rcvr_m@
            &&& self.nx == rc.x_rcvr_m@.len() && self.ny == rc.y_rcvr_m@.len() && self.nz == rc.z_rcvr_m@.len()
            &&& self.receiver_positions_m is None
        }
    }

    /// Flat index of receiver `(ix, iy, iz)` (row-major, z fastest).
    pub fn receiver_index(&self, ix: usize, iy: usize, iz: usize) -> (r: usize)
        requires
            self.receiver_count() <= usize::MAX,
            ix < self.nx,
            iy < self.ny,
            iz < self.nz,
        ensures
            r == (ix * self.ny + iy) * self.nz + iz,
            r < self.receiver_count(),
    {
        proof {
            lemma_index_in_range(ix as int, iy as int, iz as int, self.nx as int, self.ny as int, self.nz as int);
            lemma_prefix_product_bounded(self.nx as int, self.ny as int, self.nz as int);
            assert(0 <= ix * self.ny) by (nonlinear_arith)
                requires
                    0 <= ix,
                    0 <= self.ny,
            ;
            assert(ix * self.ny <= ix * self.ny + iy);
        }
        (ix * self.ny + iy) * self.nz + iz
    }

    /// One empty arrival record per receiver.
    pub fn init_arrivals(&self) -> (r: Vec<ArrivalRecord>)
        requires
            self.receiver_count() <= usize::MAX,
        ensures
            r@.len() == self.receiver_count(),
            forall|i: int| 0 <= i < r@.len() ==> #[trigger] r@[i] == spec_no_arrival(),
    {
        let n = if self.nz == 0 {
            0
        } else {
            proof {
                lemma_prefix_product_bounded(self.nx as int, self.ny as int, self.nz as int);
            }
            self.nx * self.ny * self.nz
        };
        assert(n == self.receiver_count()) by (nonlinear_arith)
            requires
                self.nz == 0 ==> n == 0,
                self.nz != 0 ==> n == self.nx * self.ny * self.nz,
        ;
        let mut r: Vec<ArrivalRecord> = Vec::new();
        let mut i: usize = 0;
        while i < n
            invariant
                i <= n,
                r@.len() == i,
                forall|j: int| 0 <= j < i ==> #[trigger] r@[j] == spec_no_arrival(),
            decreases n - i,
        {
            r.push(no_arrival());
            i = i + 1;
        }
        r
    }
}

/// The layout of the receivers of `config` in the given mode. In array mode
/// the three coordinate vectors must have the same length.
pub fn receiver_layout(config: &SimulationConfig, is_array: bool) -> (r: ReceiverLayout)
    requires
        is_array ==> config.receivers.x_rcvr_m@.len() == config.receivers.y_rcvr_m@.len()
            && config.receivers.y_rcvr_m@.len() == config.receivers.z_rcvr_m@.len(),
    ensures
        r.describes(*config, is_array),
{
    let rc = &config.receivers;
    let n_freq = config.source.freq_hz.len();
    if is_array {
        let n = rc.x_rcvr_m.len();
        let mut positions: Vec<[Binary32; 3]> = Vec::new();
        let mut i: usize = 0;
        while i < n
            invariant
                n == rc.x_rcvr_m@.len(),
                n == rc.y_rcvr_m@.len(),
                n == rc.z_rcvr_m@.len(),
                i <= n,
                positions@.len() == i,
                forall|j: int| 0 <= j < i ==> #[trigger] positions@[j] == [rc.x_rcvr_m@[j], rc.y_rcvr_m@[j], rc.z_rcvr_m@[j]],
            decreases n - i,
        {
            positions.push([rc.x_rcvr_m[i], rc.y_rcvr_m[i], rc.z_rcvr_m[i]]);
            i = i + 1;
        }
        ReceiverLayout {
            is_array: true,
            x_m: Vec::new(),
            y_m: Vec::new(),
            z_m: Vec::new(),
            receiver_positions_m: Some(positions),
            n_freq,
            nx: n,
            ny: 1,
            nz: 1,
        }
    } else {
        ReceiverLayout {
            is_array: false,
            x_m: crate::grid::copy_axis(&rc.x_rcvr_m),
            y_m: crate::grid::copy_axis(&rc.y_rcvr_m),
            z_m: crate::grid::copy_axis(&rc.z_rcvr_m),
            receiver_positions_m: None,
            n_freq,
            nx: rc.x_rcvr_m.len(),
            ny: rc.y_rcvr_m.len(),
            nz: rc.z_rcvr_m.len(),
        }
    }
}

/// A layout has one receiver per listed position in array mode, and one per
/// node of the `x` by `y` by `z` grid in grid mode.
pub proof fn lemma_layout_receiver_count(l: ReceiverLayout, config: SimulationConfig, is_array: bool)
    requires
        l.describes(config, is_array),
    ensures
        is_array ==> l.receiver_count() == config.receivers.x_rcvr_m@.len(),
        is_array ==> (l.receiver_positions_m matches Some(p) && p@.len() == l.receiver_count()),
        !is_array ==> l.receiver_count() == config.receivers.x_rcvr_m@.len() * config.receivers.y_rcvr_m@.len()
            * config.receivers.z_rcvr_m@.len(),
{
}

/// The receiver layout of the pressure field of `config`: array mode when the
/// lowercase configured type is `"array"`, grid mode otherwise. `None` exactly
/// when array mode is asked for with coordinate vectors of different lengths.
pub fn init_pressure_layout(config: &SimulationConfig) -> (r: Option<ReceiverLayout>)
    ensures
        r is None <==> (lowercase(config.receivers.config_type@) == "array"@ && !(config.receivers.x_rcvr_m@.len()
            == config.receivers.y_rcvr_m@.len() && config.receivers.y_rcvr_m@.len()
            == config.receivers.z_rcvr_m@.len())),
        r matches Some(l) ==> l.describes(*config, lowercase(config.receivers.config_type@) == "array"@),
{
    let is_array = is_array_mode(&config.receivers.config_type);
    let rc = &config.receivers;
    if is_array && !(rc.x_rcvr_m.len() == rc.y_rcvr_m.len() && rc.y_rcvr_m.len() == rc.z_rcvr_m.len()) {
        return None;
    }
    Some(receiver_layout(config, is_array))
}

} // verus!
