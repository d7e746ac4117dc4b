use vstd::prelude::*;
use vstd::string::StringExecFns;

use crate::buffer::strip_point;
use crate::buffer::ChartBuffer;
use crate::buffer::ExtensionStrip;
use crate::buffer::StripView;
use crate::buffer::PROGRESS_LIMIT;
use crate::buffer::TIME_LIMIT;
use crate::data::OHLC;
use crate::painting::op_ok;
use crate::painting::Label;
use crate::painting::PaintOp;
use crate::painting::MAX_DIM;
use crate::rex::dema::copy_values;
use crate::rex::dema::subtract;
use crate::rex::ema::ema;
use crate::rex::ema::ema_seq;
use crate::rex::ema::median_list;
use crate::rex::ema::median_seq;
use crate::rex::ema::EMA;
use crate::rex::ema::EMA_VALUE_LIMIT;
use crate::rex::RendererExtension;
use crate::utils::spec_decimal;
use crate::utils::u64_to_string;

verus! {

/// The pointwise difference of two equally long series.
pub open spec fn seq_sub(a: Seq<i64>, b: Seq<i64>) -> Seq<i64> {
    Seq::new(a.len(), |i: int| (a[i] - b[i]) as i64)
}

/// The divergence series: the fast moving average of the medians minus
/// the slow one, pointwise.
pub open spec fn divergence_seq(data: Seq<OHLC>, num: int, den: int) -> Seq<i64> {
    seq_sub(
        ema_seq(median_seq(data), 12, num, den),
        ema_seq(median_seq(data), 26, num, den),
    )
}

/// The signal series: the moving average of the divergence.
pub open spec fn signal_seq(data: Seq<OHLC>, num: int, den: int) -> Seq<i64> {
    ema_seq(divergence_seq(data, num, den), 9, num, den)
}

/// The histogram series: divergence minus signal, pointwise.
pub open spec fn histogram_seq(data: Seq<OHLC>, num: int, den: int) -> Seq<i64> {
    seq_sub(divergence_seq(data, num, den), signal_seq(data, num, den))
}

/// The running minimum of a series, seeded with `acc`, scanned in order.
pub open spec fn run_min(vals: Seq<i64>, acc: int) -> int
    decreases vals.len(),
{
    if vals.len() == 0 {
        acc
    } else {
        run_min(
            vals.skip(1),
            if (vals[0] as int) < acc {
                vals[0] as int
            } else {
                acc
            },
        )
    }
}

/// The running maximum of a series, seeded with `acc`, scanned in order.
pub open spec fn run_max(vals: Seq<i64>, acc: int) -> int
    decreases vals.len(),
{
    if vals.len() == 0 {
        acc
    } else {
        run_max(
            vals.skip(1),
            if (vals[0] as int) > acc {
                vals[0] as int
            } else {
                acc
            },
        )
    }
}

/// The bottom of the panel's value range: the least of all three series,
/// floored at zero so the zero line is always visible.
pub open spec fn macd_lowest(data: Seq<OHLC>, num: int, den: int) -> int {
    let seed = divergence_seq(data, num, den)[0] as int;
    let l = run_min(
        histogram_seq(data, num, den),
        run_min(signal_seq(data, num, den), run_min(divergence_seq(data, num, den), seed)),
    );
    if l > 0 {
        0
    } else {
        l
    }
}

/// The top of the panel's value range: the greatest of all three series.
pub open spec fn macd_highest(data: Seq<OHLC>, num: int, den: int) -> int {
    let seed = divergence_seq(data, num, den)[0] as int;
    run_max(
        histogram_seq(data, num, den),
        run_max(signal_seq(data, num, den), run_max(divergence_seq(data, num, den), seed)),
    )
}

/// The display list of the histogram: one bar per index from 35 on, from
/// the zero level to the value, centred in its time slot.
pub open spec fn macd_hist_ops(
    sv: StripView,
    vals: Seq<i64>,
    lowest: int,
    range: int,
    period: int,
    pa: int,
    colour: u32,
    i: int,
) -> Seq<PaintOp>
    decreases vals.len() - i,
{
    if i < 0 || i >= vals.len() {
        Seq::empty()
    } else {
        let time = i * period + pa / 2;
        seq![
            PaintOp::Rect {
                a: strip_point(sv, vals[i] - lowest, range, time - (pa + 11) / 12),
                b: strip_point(sv, -lowest, range, time + pa / 12),
                rgba: colour,
            },
        ] + macd_hist_ops(sv, vals, lowest, range, period, pa, colour, i + 1)
    }
}

/// The display list of one panel polyline: one segment per index from
/// `begin + 1` on.
pub open spec fn macd_curve_ops(
    sv: StripView,
    vals: Seq<i64>,
    lowest: int,
    range: int,
    period: int,
    pa: int,
    colour: u32,
    i: int,
) -> Seq<PaintOp>
    decreases vals.len() - i,
{
    if i < 1 || i >= vals.len() {
        Seq::empty()
    } else {
        seq![
            PaintOp::Line {
                a: strip_point(
                    sv,
                    vals[i - 1] - lowest,
                    range,
                    (i - 1) * period + pa / 2 - (pa + 11) / 12,
                ),
                b: strip_point(sv, vals[i] - lowest, range, i * period + pa / 2 - pa / 12),
                rgba: colour,
            },
        ] + macd_curve_ops(sv, vals, lowest, range, period, pa, colour, i + 1)
    }
}

/// The display list of the panel after its headers: when the value range
/// is usable, the histogram bars, the zero reference line with its
/// caption, and the signal and divergence polylines.
pub open spec fn macd_strip_ops(sv: StripView, data: Seq<OHLC>, e: MACD) -> Seq<PaintOp> {
    let num = e.sf_num as int;
    let den = e.sf_den as int;
    let lowest = macd_lowest(data, num, den);
    let range = macd_highest(data, num, den) - lowest;
    let head = seq![
        PaintOp::TextBackground {
            at: (8usize, 25usize),
            label: Label::Lit("MACD Divergence"),
            rgba: e.divergence_colour,
            bg: 0x7F7F7F7F,
        },
        PaintOp::TextBackground {
            at: (8usize, 42usize),
            label: Label::Lit("MACD Signal"),
            rgba: e.signal_colour,
            bg: 0x7F7F7F7F,
        },
    ];
    if 0 < range <= crate::buffer::PROGRESS_LIMIT {
        let n = data.len() as int;
        let period = sv.timeframe / n;
        let pa = 4 * period / 5;
        let zero1 = strip_point(sv, -lowest, range, 0);
        let zero2 = strip_point(sv, -lowest, range, sv.timeframe);
        head + macd_hist_ops(
            sv,
            histogram_seq(data, num, den),
            lowest,
            range,
            period,
            pa,
            e.histogram_colour,
            35,
        ) + seq![
            PaintOp::Line { a: zero1, b: zero2, rgba: e.label_colour },
            PaintOp::Text {
                at: (
                    (zero2.0 + 4) as usize,
                    if zero2.1 >= 8 {
                        (zero2.1 - 8) as usize
                    } else {
                        0usize
                    },
                ),
                label: Label::Lit("Zero"),
                rgba: e.label_colour,
            },
        ] + macd_curve_ops(
            sv,
            signal_seq(data, num, den),
            lowest,
            range,
            period,
            pa,
            e.signal_colour,
            36,
        ) + macd_curve_ops(
            sv,
            divergence_seq(data, num, den),
            lowest,
            range,
            period,
            pa,
            e.divergence_colour,
            27,
        )
    } else {
        head
    }
}

/// The moving-average-convergence-divergence overlay: the gap between a
/// fast and a slow moving average of the medians, its own moving average
/// as a signal line, and their difference as a histogram, all rendered in
/// a dedicated sub-panel with a zero reference line.
#[derive(Clone, Copy, Debug)]
pub struct MACD {
    /// Colour of the divergence polyline.
    pub divergence_colour: u32,
    /// Colour of the signal polyline.
    pub signal_colour: u32,
    /// Colour of the histogram bars.
    pub histogram_colour: u32,
    /// Colour of the labels and the zero line.
    pub label_colour: u32,
    /// Numerator of the smoothing factor.
    pub sf_num: u32,
    /// Denominator of the smoothing factor.
    pub sf_den: u32,
}

impl MACD {
    /// A convergence-divergence panel with the given colours and smoothing
    /// factor `sf_num / sf_den` (strictly between zero and one).
    pub fn new(
        divergence_colour: u32,
        signal_colour: u32,
        histogram_colour: u32,
        label_colour: u32,
        sf_num: u32,
        sf_den: u32,
    ) -> (r: MACD)
        requires
            0 < sf_num < sf_den,
        ensures
            r.divergence_colour == divergence_colour,
            r.signal_colour == signal_colour,
            r.histogram_colour == histogram_colour,
            r.label_colour == label_colour,
            r.sf_num == sf_num,
            r.sf_den == sf_den,
            r.wf(),
    {
        MACD { divergence_colour, signal_colour, histogram_colour, label_colour, sf_num, sf_den }
    }
}

impl RendererExtension for MACD {
    open spec fn wf(&self) -> bool {
        0 < self.sf_num < self.sf_den
    }

    open spec fn name_spec(&self) -> Seq<char> {
        "MACD(12, 26, 9, sf="@ + spec_decimal(self.sf_num as int) + "/"@ + spec_decimal(
            self.sf_den as int,
        ) + ")"@
    }

    open spec fn lore_colour_spec(&self) -> Option<u32> {
        None
    }

    open spec fn painted(&self, pre: crate::buffer::ChartView, data: Seq<OHLC>) -> Seq<u8> {
        let sv = crate::buffer::sub_strip_of(pre, 135);
        let titled = crate::painting::text_bytes(
            crate::painting::fill_bytes(pre.width * 135, pre.background),
            pre.width,
            135,
            (8usize, 8usize),
            vstd::utf8::encode_utf8(self.name_spec()),
            self.label_colour,
        );
        let strip_bytes = crate::painting::ops_bytes(
            titled,
            pre.width,
            135,
            pre.background,
            macd_strip_ops(sv, data, *self),
        );
        if pre.height + 135 <= MAX_DIM {
            pre.bytes + strip_bytes
        } else {
            pre.bytes
        }
    }

    #[verifier::rlimit(100)]
    fn apply(&self, buffer: &mut ChartBuffer, data: &[OHLC]) {
        let ghost numg = self.sf_num as int;
        let ghost deng = self.sf_den as int;
        let medians = median_list(data);
        let short = ema(&EMA::new(12, self.sf_num, self.sf_den, 0), medians.as_slice());
        let long = ema(&EMA::new(26, self.sf_num, self.sf_den, 0), medians.as_slice());
        let mut divergence = copy_values(&short);
        subtract(&mut divergence, &long);
        proof {
            assert(medians@ =~= median_seq(data@));
            assert(short@ =~= ema_seq(median_seq(data@), 12, numg, deng));
            assert(long@ =~= ema_seq(median_seq(data@), 26, numg, deng));
            assert forall|j: int|
                0 <= j < divergence@.len() implies -EMA_VALUE_LIMIT <= #[trigger] divergence@[j]
                <= EMA_VALUE_LIMIT by {
                crate::rex::ema::lemma_ema_at_bounds(
                    medians@,
                    12,
                    self.sf_num as int,
                    self.sf_den as int,
                    j,
                    -2 * crate::data::PRICE_LIMIT as int,
                    2 * crate::data::PRICE_LIMIT as int,
                );
                crate::rex::ema::lemma_ema_at_bounds(
                    medians@,
                    26,
                    self.sf_num as int,
                    self.sf_den as int,
                    j,
                    -2 * crate::data::PRICE_LIMIT as int,
                    2 * crate::data::PRICE_LIMIT as int,
                );
            }
            assert(divergence@ =~= divergence_seq(data@, numg, deng));
        }
        let signal = ema(&EMA::new(9, self.sf_num, self.sf_den, 0), divergence.as_slice());
        let mut histogram = copy_values(&divergence);
        subtract(&mut histogram, &signal);
        proof {
            assert(signal@ =~= signal_seq(data@, numg, deng));
            assert(histogram@ =~= histogram_seq(data@, numg, deng));
        }
        // the value range all three series share, floored at zero
        let mut lowest: i64 = divergence[0];
        let mut highest: i64 = divergence[0];
        scan_bounds(&divergence, &mut lowest, &mut highest);
        scan_bounds(&signal, &mut lowest, &mut highest);
        scan_bounds(&histogram, &mut lowest, &mut highest);
        if lowest > 0 {
            lowest = 0;
        }
        proof {
            assert(lowest as int == macd_lowest(data@, numg, deng));
            assert(highest as int == macd_highest(data@, numg, deng));
        }
        let range = highest - lowest;
        let strip_result = buffer.create_extension_strip(135);
        let mut strip = match strip_result {
            Ok(s) => s,
            Err(_) => {
                proof {
                    assert(false);
                }
                return ;
            },
        };
        let ghost sv = strip.view();
        let name = self.name();
        strip.text((8, 8), name.as_str(), self.label_colour);
        let mut ops: Vec<PaintOp> = Vec::new();
        ops.push(
            PaintOp::TextBackground {
                at: (8, 8 + 17),
                label: Label::Lit("MACD Divergence"),
                rgba: self.divergence_colour,
                bg: 0x7F7F7F7F,
            },
        );
        ops.push(
            PaintOp::TextBackground {
                at: (8, 8 + 17 * 2),
                label: Label::Lit("MACD Signal"),
                rgba: self.signal_colour,
                bg: 0x7F7F7F7F,
            },
        );
        let ghost head = ops@;
        if range > 0 && range <= PROGRESS_LIMIT {
            let n = data.len();
            let tf = strip.timeframe as u64;
            let period = tf / (n as u64);
            let pa = 4 * period / 5;
            proof {
                lemma_period_bound(tf as int, n as int, period as int);
                assert(4 * (period as int) <= 5 * (period as int)) by (nonlinear_arith)
                    requires
                        0 <= period,
                ;
                vstd::arithmetic::div_mod::lemma_div_is_ordered(
                    4 * (period as int),
                    5 * (period as int),
                    5,
                );
                vstd::arithmetic::div_mod::lemma_div_multiples_vanish(period as int, 5);
                assert(5 * (period as int) == (period as int) * 5) by (nonlinear_arith);
            }
            // histogram bars
            push_hist_ops(
                &mut ops,
                &strip,
                &histogram,
                lowest,
                range,
                period,
                pa,
                self.histogram_colour,
            );
            // zero reference line
            let zp1 = strip.data_to_coords(-lowest, range, 0);
            let zp2 = strip.data_to_coords(-lowest, range, strip.timeframe);
            let zy = if zp2.1 >= 8 {
                zp2.1 - 8
            } else {
                0
            };
            let zline = PaintOp::Line { a: zp1, b: zp2, rgba: self.label_colour };
            let ztext = PaintOp::Text {
                at: (zp2.0 + 4, zy),
                label: Label::Lit("Zero"),
                rgba: self.label_colour,
            };
            ops.push(zline);
            ops.push(ztext);
            // signal and divergence polylines
            push_curve_ops(
                &mut ops,
                &strip,
                &signal,
                lowest,
                range,
                period,
                pa,
                35,
                self.signal_colour,
            );
            push_curve_ops(
                &mut ops,
                &strip,
                &divergence,
                lowest,
                range,
                period,
                pa,
                26,
                self.divergence_colour,
            );
            proof {
                assert(ops@ =~= head + macd_hist_ops(
                    sv,
                    histogram@,
                    lowest as int,
                    range as int,
                    period as int,
                    pa as int,
                    self.histogram_colour,
                    35,
                ) + seq![zline, ztext] + macd_curve_ops(
                    sv,
                    signal@,
                    lowest as int,
                    range as int,
                    period as int,
                    pa as int,
                    self.signal_colour,
                    36,
                ) + macd_curve_ops(
                    sv,
                    divergence@,
                    lowest as int,
                    range as int,
                    period as int,
                    pa as int,
                    self.divergence_colour,
                    27,
                ));
                assert(ops@ == macd_strip_ops(sv, data@, *self));
            }
        } else {
            proof {
                assert(ops@ == macd_strip_ops(sv, data@, *self));
            }
        }
        strip.paint_ops(&ops);
        if buffer.height() <= MAX_DIM - 135 {
            buffer.attach_extension_strip(strip);
        }
    }

    fn name(&self) -> (r: String) {
        let mut s = String::from_str("MACD(12, 26, 9, sf=");
        s.append(u64_to_string(self.sf_num as u64).as_str());
        s.append("/");
        s.append(u64_to_string(self.sf_den as u64).as_str());
        s.append(")");
        proof {
            assert(s@ =~= self.name_spec());
        }
        s
    }

    fn lore_colour(&self) -> (r: Option<u32>) {
        None
    }
}

/// Widen the running bounds to cover every value of the series, scanned
/// in order.
fn scan_bounds(values: &Vec<i64>, lowest: &mut i64, highest: &mut i64)
    requires
        forall|j: int|
            0 <= j < values@.len() ==> -2 * EMA_VALUE_LIMIT as int <= #[trigger] values@[j] <= 2
                * EMA_VALUE_LIMIT as int,
        -2 * EMA_VALUE_LIMIT as int <= *old(lowest) <= 2 * EMA_VALUE_LIMIT as int,
        -2 * EMA_VALUE_LIMIT as int <= *old(highest) <= 2 * EMA_VALUE_LIMIT as int,
    ensures
        *final(lowest) as int == run_min(values@, *old(lowest) as int),
        *final(highest) as int == run_max(values@, *old(highest) as int),
        -2 * EMA_VALUE_LIMIT as int <= *final(lowest) <= *old(lowest),
        *old(highest) <= *final(highest) <= 2 * EMA_VALUE_LIMIT as int,
        forall|j: int|
            0 <= j < values@.len() ==> *final(lowest) <= #[trigger] values@[j]
                <= *final(highest),
{
    let n = values.len();
    let mut i: usize = 0;
    proof {
        assert(values@.skip(0) =~= values@);
    }
    while i < n
        invariant
            n == values@.len(),
            0 <= i <= n,
            forall|j: int|
                0 <= j < values@.len() ==> -2 * EMA_VALUE_LIMIT as int <= #[trigger] values@[j]
                    <= 2 * EMA_VALUE_LIMIT as int,
            -2 * EMA_VALUE_LIMIT as int <= *lowest <= *old(lowest),
            *old(highest) <= *highest <= 2 * EMA_VALUE_LIMIT as int,
            run_min(values@, *old(lowest) as int) == run_min(
                values@.skip(i as int),
                *lowest as int,
            ),
            run_max(values@, *old(highest) as int) == run_max(
                values@.skip(i as int),
                *highest as int,
            ),
            forall|j: int| 0 <= j < i ==> *lowest <= #[trigger] values@[j] <= *highest,
        decreases n - i,
    {
        proof {
            assert(values@.skip(i as int)[0] == values@[i as int]);
            assert(values@.skip(i as int).skip(1) =~= values@.skip(i as int + 1));
        }
        let v = values[i];
        if v < *lowest {
            *lowest = v;
        }
        if v > *highest {
            *highest = v;
        }
        i = i + 1;
    }
    proof {
        assert(values@.skip(n as int) =~= Seq::<i64>::empty());
    }
}

/// The slot width of one candle never exceeds the time window.
pub(crate) proof fn lemma_period_bound(tf: int, n: int, period: int)
    requires
        0 < n,
        0 <= tf,
        period == tf / n,
    ensures
        0 <= period <= tf,
        forall|i: int| 0 <= i < n ==> #[trigger] (i * period) + period <= tf,
{
    vstd::arithmetic::div_mod::lemma_div_pos_is_pos(tf, n);
    vstd::arithmetic::div_mod::lemma_fundamental_div_mod(tf, n);
    vstd::arithmetic::div_mod::lemma_mod_bound(tf, n);
    assert forall|i: int| 0 <= i < n implies #[trigger] (i * period) + period <= tf by {
        assert(i * period + period <= n * period) by (nonlinear_arith)
            requires
                0 <= i < n,
                0 <= period,
        ;
        assert(n * period <= tf) by (nonlinear_arith)
            requires
                tf == n * (tf / n) + tf % n,
                period == tf / n,
                0 <= tf % n,
        ;
    }
    vstd::arithmetic::div_mod::lemma_div_is_ordered_by_denominator(tf, 1, n);
    vstd::arithmetic::div_mod::lemma_fundamental_div_mod(tf, 1);
    vstd::arithmetic::div_mod::lemma_mod_bound(tf, 1);
}

/// Append the display list of the histogram bars: one per index from 35
/// on, from the zero level to the value.
fn push_hist_ops(
    ops: &mut Vec<PaintOp>,
    strip: &ExtensionStrip,
    values: &Vec<i64>,
    lowest: i64,
    range: i64,
    period: u64,
    pa: u64,
    colour: u32,
)
    requires
        strip.wf(),
        0 < range <= PROGRESS_LIMIT,
        -2 * EMA_VALUE_LIMIT as int <= lowest <= 0,
        forall|j: int|
            0 <= j < values@.len() ==> -2 * EMA_VALUE_LIMIT as int <= #[trigger] values@[j] <= 2
                * EMA_VALUE_LIMIT as int,
        period <= TIME_LIMIT as u64,
        pa <= period,
        forall|i: int|
            0 <= i < values@.len() ==> #[trigger] (i * period as int) + period as int
                <= TIME_LIMIT,
    ensures
        final(ops)@ == old(ops)@ + macd_hist_ops(
            strip.view(),
            values@,
            lowest as int,
            range as int,
            period as int,
            pa as int,
            colour,
            35,
        ),
        forall|j: int|
            old(ops)@.len() <= j < final(ops)@.len() ==> op_ok(#[trigger] final(ops)@[j]),
        forall|j: int| 0 <= j < old(ops)@.len() ==> final(ops)@[j] == old(ops)@[j],
{
    let ghost sv = strip.view();
    let ghost ops0 = ops@;
    let m = values.len();
    let mut i: usize = 35;
    while i < m
        invariant
            strip.wf(),
            sv == strip.view(),
            m == values@.len(),
            0 < range <= PROGRESS_LIMIT,
            -2 * EMA_VALUE_LIMIT as int <= lowest <= 0,
            forall|j: int|
                0 <= j < values@.len() ==> -2 * EMA_VALUE_LIMIT as int <= #[trigger] values@[j]
                    <= 2 * EMA_VALUE_LIMIT as int,
            period <= TIME_LIMIT as u64,
            pa <= period,
            forall|j: int|
                0 <= j < values@.len() ==> #[trigger] (j * period as int) + period as int
                    <= TIME_LIMIT,
            35 <= i,
            ops0.len() <= ops@.len(),
            forall|j: int| 0 <= j < ops0.len() ==> ops@[j] == ops0[j],
            forall|j: int| ops0.len() <= j < ops@.len() ==> op_ok(#[trigger] ops@[j]),
            ops0 + macd_hist_ops(
                sv,
                values@,
                lowest as int,
                range as int,
                period as int,
                pa as int,
                colour,
                35,
            ) == ops@ + macd_hist_ops(
                sv,
                values@,
                lowest as int,
                range as int,
                period as int,
                pa as int,
                colour,
                i as int,
            ),
        decreases m - i,
    {
        proof {
            assert((i as int) * (period as int) + period as int <= TIME_LIMIT);
        }
        let time = ((i as u64) * period + pa / 2) as i64;
        let ceil12 = ((pa + 11) / 12) as i64;
        let floor12 = (pa / 12) as i64;
        let p1 = strip.data_to_coords(values[i] - lowest, range, time - ceil12);
        let p2 = strip.data_to_coords(-lowest, range, time + floor12);
        let op = PaintOp::Rect { a: p1, b: p2, rgba: colour };
        let ghost rest = macd_hist_ops(
            sv,
            values@,
            lowest as int,
            range as int,
            period as int,
            pa as int,
            colour,
            i as int + 1,
        );
        proof {
            assert(macd_hist_ops(
                sv,
                values@,
                lowest as int,
                range as int,
                period as int,
                pa as int,
                colour,
                i as int,
            ) == seq![op] + rest);
            assert(ops@.push(op) + rest =~= ops@ + (seq![op] + rest));
        }
        ops.push(op);
        i = i + 1;
    }
    proof {
        assert(macd_hist_ops(
            sv,
            values@,
            lowest as int,
            range as int,
            period as int,
            pa as int,
            colour,
            i as int,
        ) =~= Seq::<PaintOp>::empty());
        assert(ops@ + Seq::<PaintOp>::empty() =~= ops@);
    }
}

/// Append the display list of one panel polyline, one segment per index
/// from `begin + 1` on.
fn push_curve_ops(
    ops: &mut Vec<PaintOp>,
    strip: &ExtensionStrip,
    values: &Vec<i64>,
    lowest: i64,
    range: i64,
    period: u64,
    pa: u64,
    begin: usize,
    colour: u32,
)
    requires
        strip.wf(),
        begin <= 1000,
        0 < range <= PROGRESS_LIMIT,
        -2 * EMA_VALUE_LIMIT as int <= lowest <= 0,
        forall|j: int|
            0 <= j < values@.len() ==> -2 * EMA_VALUE_LIMIT as int <= #[trigger] values@[j] <= 2
                * EMA_VALUE_LIMIT as int,
        period <= TIME_LIMIT as u64,
        pa <= period,
        forall|i: int|
            0 <= i < values@.len() ==> #[trigger] (i * period as int) + period as int
                <= TIME_LIMIT,
    ensures
        final(ops)@ == old(ops)@ + macd_curve_ops(
            strip.view(),
            values@,
            lowest as int,
            range as int,
            period as int,
            pa as int,
            colour,
            begin + 1,
        ),
        forall|j: int|
            old(ops)@.len() <= j < final(ops)@.len() ==> op_ok(#[trigger] final(ops)@[j]),
        forall|j: int| 0 <= j < old(ops)@.len() ==> final(ops)@[j] == old(ops)@[j],
{
    let ghost sv = strip.view();
    let ghost ops0 = ops@;
    let m = values.len();
    let mut i: usize = begin + 1;
    while i < m
        invariant
            strip.wf(),
            sv == strip.view(),
            m == values@.len(),
            0 < range <= PROGRESS_LIMIT,
            -2 * EMA_VALUE_LIMIT as int <= lowest <= 0,
            forall|j: int|
                0 <= j < values@.len() ==> -2 * EMA_VALUE_LIMIT as int <= #[trigger] values@[j]
                    <= 2 * EMA_VALUE_LIMIT as int,
            period <= TIME_LIMIT as u64,
            pa <= period,
            forall|j: int|
                0 <= j < values@.len() ==> #[trigger] (j * period as int) + period as int
                    <= TIME_LIMIT,
            begin + 1 <= i,
            ops0.len() <= ops@.len(),
            forall|j: int| 0 <= j < ops0.len() ==> ops@[j] == ops0[j],
            forall|j: int| ops0.len() <= j < ops@.len() ==> op_ok(#[trigger] ops@[j]),
            ops0 + macd_curve_ops(
                sv,
                values@,
                lowest as int,
                range as int,
                period as int,
                pa as int,
                colour,
                begin + 1,
            ) == ops@ + macd_curve_ops(
                sv,
                values@,
                lowest as int,
                range as int,
                period as int,
                pa as int,
                colour,
                i as int,
            ),
        decreases m - i,
    {
        proof {
            assert((i as int) * (period as int) + period as int <= TIME_LIMIT);
            assert(((i - 1) as int) * (period as int) + period as int <= TIME_LIMIT);
        }
        let time1 = (((i - 1) as u64) * period + pa / 2) as i64;
        let time2 = ((i as u64) * period + pa / 2) as i64;
        let ceil12 = ((pa + 11) / 12) as i64;
        let floor12 = (pa / 12) as i64;
        let p1 = strip.data_to_coords(values[i - 1] - lowest, range, time1 - ceil12);
        let p2 = strip.data_to_coords(values[i] - lowest, range, time2 - floor12);
        let op = PaintOp::Line { a: p1, b: p2, rgba: colour };
        let ghost rest = macd_curve_ops(
            sv,
            values@,
            lowest as int,
            range as int,
            period as int,
            pa as int,
            colour,
            i as int + 1,
        );
        proof {
            assert(macd_curve_ops(
                sv,
                values@,
                lowest as int,
                range as int,
                period as int,
                pa as int,
                colour,
                i as int,
            ) == seq![op] + rest);
            assert(ops@.push(op) + rest =~= ops@ + (seq![op] + rest));
        }
        ops.push(op);
        i = i + 1;
    }
    proof {
        assert(macd_curve_ops(
            sv,
            values@,
            lowest as int,
            range as int,
            period as int,
            pa as int,
            colour,
            i as int,
        ) =~= Seq::<PaintOp>::empty());
        assert(ops@ + Seq::<PaintOp>::empty() =~= ops@);
    }
}

} // verus!
