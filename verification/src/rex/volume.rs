use vstd::prelude::*;
use vstd::string::StringExecFns;

use crate::buffer::strip_point;
use crate::buffer::ChartBuffer;
use crate::buffer::ExtensionStrip;
use crate::buffer::StripView;
use crate::data::OHLC;
use crate::data::PRICE_LIMIT;
use crate::painting::op_ok;
use crate::painting::Label;
use crate::painting::PaintOp;
use crate::painting::MAX_DIM;
use crate::rex::RendererExtension;

verus! {

/// Ten to the power `k`.
pub open spec fn spec_pow10(k: int) -> int
    decreases k,
{
    if k <= 0 {
        1
    } else {
        10 * spec_pow10(k - 1)
    }
}

/// How many decimal digits a non-negative number has (zero has one).
pub open spec fn spec_num_digits(n: int) -> int
    decreases n,
{
    if n < 10 {
        1
    } else {
        1 + spec_num_digits(n / 10)
    }
}

/// The number rounded to its `sigfigs` most significant decimal digits,
/// half away from zero; zero significant figures give zero, and numbers
/// with no more digits than asked for stay as they are.
pub open spec fn spec_keep_msf(num: int, sigfigs: int) -> int {
    if sigfigs == 0 || num == 0 {
        0
    } else if spec_num_digits(num) <= sigfigs {
        num
    } else {
        let factor = spec_pow10(spec_num_digits(num) - sigfigs);
        ((num + factor / 2) / factor) * factor
    }
}

/// Round a number to its most significant decimal digits, as
/// `spec_keep_msf` states.
pub fn keep_msf(num: u64, sigfigs: u32) -> (r: u64)
    requires
        num <= 1_000_000_000_000_000_000,
    ensures
        r as int == spec_keep_msf(num as int, sigfigs as int),
{
    if sigfigs == 0 || num == 0 {
        return 0;
    }
    // count the decimal digits
    let mut digits: u32 = 1;
    let mut rest: u64 = num;
    while rest >= 10
        invariant
            1 <= digits <= 19,
            1 <= rest,
            spec_num_digits(num as int) == digits + spec_num_digits(rest as int) - 1,
            (rest as int) * spec_pow10(digits as int - 1) <= num as int,
            num <= 1_000_000_000_000_000_000,
        decreases rest,
    {
        proof {
            lemma_pow10_pos(digits as int - 1);
            lemma_pow10_values();
            // ten times the running power still fits under the input cap
            if digits >= 19 {
                lemma_pow10_monotone(18, digits as int - 1);
                assert((rest as int) * spec_pow10(digits as int - 1) >= 10 * spec_pow10(18))
                    by (nonlinear_arith)
                    requires
                        rest >= 10,
                        spec_pow10(digits as int - 1) >= spec_pow10(18),
                        spec_pow10(18) >= 1,
                ;
            }
            vstd::arithmetic::div_mod::lemma_fundamental_div_mod(rest as int, 10);
            vstd::arithmetic::div_mod::lemma_mod_bound(rest as int, 10);
            vstd::arithmetic::div_mod::lemma_div_pos_is_pos(rest as int, 10);
            assert(((rest as int) / 10) * (10 * spec_pow10(digits as int - 1)) <= (rest as int)
                * spec_pow10(digits as int - 1)) by (nonlinear_arith)
                requires
                    10 * ((rest as int) / 10) <= rest as int,
                    0 <= (rest as int) / 10,
                    spec_pow10(digits as int - 1) >= 1,
            ;
        }
        rest = rest / 10;
        digits = digits + 1;
    }
    if digits <= sigfigs {
        return num;
    }
    // round away the trailing digits
    let k = digits - sigfigs;
    let mut factor: u64 = 1;
    let mut j: u32 = 0;
    while j < k
        invariant
            0 <= j <= k <= 18,
            factor as int == spec_pow10(j as int),
            1 <= factor,
        decreases k - j,
    {
        proof {
            lemma_pow10_monotone(j as int, 17);
            lemma_pow10_values();
        }
        factor = factor * 10;
        j = j + 1;
    }
    proof {
        lemma_pow10_values();
        lemma_pow10_monotone(k as int, 18);
        vstd::arithmetic::div_mod::lemma_div_pos_is_pos((num + factor / 2) as int, factor as int);
        vstd::arithmetic::div_mod::lemma_div_is_ordered(
            (num + factor / 2) as int,
            (2_000_000_000_000_000_000u64 as int),
            factor as int,
        );
    }
    let q = (num + factor / 2) / factor;
    proof {
        assert((q as int) * (factor as int) <= ((num + factor / 2) as int / factor as int) * (
        factor as int)) by (nonlinear_arith)
            requires
                q as int == (num + factor / 2) as int / factor as int,
                0 < factor,
        ;
        vstd::arithmetic::div_mod::lemma_fundamental_div_mod(
            (num + factor / 2) as int,
            factor as int,
        );
        vstd::arithmetic::div_mod::lemma_mod_bound((num + factor / 2) as int, factor as int);
        assert((q as int) * (factor as int) <= (num + factor / 2) as int) by (nonlinear_arith)
            requires
                (num + factor / 2) as int == (factor as int) * (q as int) + ((num + factor
                    / 2) as int % factor as int),
                0 <= (num + factor / 2) as int % factor as int,
        ;
    }
    q * factor
}

/// Powers of ten grow with the exponent.
proof fn lemma_pow10_monotone(a: int, b: int)
    requires
        a <= b,
    ensures
        spec_pow10(a) <= spec_pow10(b),
        1 <= spec_pow10(a),
    decreases b - a + (if a < 0 {
        -a
    } else {
        a
    }),
{
    lemma_pow10_pos(a);
    lemma_pow10_pos(b);
    if a < b {
        lemma_pow10_monotone(a, b - 1);
    }
}

/// Every power of ten is positive.
proof fn lemma_pow10_pos(k: int)
    ensures
        1 <= spec_pow10(k),
    decreases (if k < 0 {
        0
    } else {
        k
    }),
{
    if k > 0 {
        lemma_pow10_pos(k - 1);
    }
}

/// The small powers of ten, spelled out.
proof fn lemma_pow10_values()
    ensures
        spec_pow10(17) == 100_000_000_000_000_000,
        spec_pow10(18) == 1_000_000_000_000_000_000,
{
    assert(spec_pow10(0) == 1);
    assert(spec_pow10(1) == 10);
    assert(spec_pow10(2) == 100);
    assert(spec_pow10(3) == 1000);
    assert(spec_pow10(4) == 10_000);
    assert(spec_pow10(5) == 100_000);
    assert(spec_pow10(6) == 1_000_000);
    assert(spec_pow10(7) == 10_000_000);
    assert(spec_pow10(8) == 100_000_000);
    assert(spec_pow10(9) == 1_000_000_000);
    assert(spec_pow10(10) == 10_000_000_000);
    assert(spec_pow10(11) == 100_000_000_000);
    assert(spec_pow10(12) == 1_000_000_000_000);
    assert(spec_pow10(13) == 10_000_000_000_000);
    assert(spec_pow10(14) == 100_000_000_000_000);
    assert(spec_pow10(15) == 1_000_000_000_000_000);
    assert(spec_pow10(16) == 10_000_000_000_000_000);
    assert(spec_pow10(17) == 100_000_000_000_000_000);
    assert(spec_pow10(18) == 1_000_000_000_000_000_000);
}

/// The largest total volume among the first `n` candles.
pub open spec fn spec_max_vol(data: Seq<OHLC>, n: int) -> int
    decreases n,
{
    if n <= 0 {
        0
    } else {
        let m = spec_max_vol(data, n - 1);
        if data[n - 1].v > m {
            data[n - 1].v as int
        } else {
            m
        }
    }
}

/// The display list of one volume reference line, at empty, half or full
/// panel height (`level` 0, 1 or 2), captioned with the volume value
/// rounded to three significant figures.
pub open spec fn vol_line_ops(sv: StripView, level: int, value: int, rgba: u32) -> Seq<PaintOp> {
    let p1 = strip_point(sv, level, 2, 0);
    let p2 = strip_point(sv, level, 2, sv.timeframe);
    seq![
        PaintOp::Line { a: p1, b: p2, rgba },
        PaintOp::TextOutline {
            at: (
                (p2.0 + 5) as usize,
                if p2.1 >= 9 {
                    (p2.1 - 9) as usize
                } else {
                    0usize
                },
            ),
            label: Label::Unsigned(spec_keep_msf(value, 3) as u64),
            rgba,
        },
    ]
}

/// The display list of one volume bar: a split buy/sell bar where buy
/// volume is known, otherwise a single generic bar.
pub open spec fn vol_bar(
    sv: StripView,
    e: Volume,
    data: Seq<OHLC>,
    maxv: int,
    period: int,
    pa: int,
    i: int,
) -> Seq<PaintOp> {
    let c = data[i];
    let left = i * period;
    let right = left + pa;
    let bottom_left = strip_point(sv, 0, maxv, left);
    match c.bv {
        Some(b) => seq![
            PaintOp::Rect {
                a: bottom_left,
                b: strip_point(sv, b as int, maxv, right),
                rgba: e.buy_colour,
            },
            PaintOp::Rect {
                a: strip_point(sv, b as int, maxv, right),
                b: strip_point(sv, c.v as int, maxv, left),
                rgba: e.sell_colour,
            },
        ],
        None => seq![
            PaintOp::Rect {
                a: bottom_left,
                b: strip_point(sv, c.v as int, maxv, right),
                rgba: e.generic_colour,
            },
        ],
    }
}

/// The display list of the first `n` volume bars, in order.
pub open spec fn vol_bars_ops(
    sv: StripView,
    e: Volume,
    data: Seq<OHLC>,
    maxv: int,
    period: int,
    pa: int,
    n: int,
) -> Seq<PaintOp>
    decreases n,
{
    if n <= 0 {
        Seq::empty()
    } else {
        vol_bars_ops(sv, e, data, maxv, period, pa, n - 1) + vol_bar(
            sv,
            e,
            data,
            maxv,
            period,
            pa,
            n - 1,
        )
    }
}

/// The whole display list of the volume panel: the title, the empty-scale
/// line, and — when any candle carries volume — the half and full scale
/// lines and one bar per candle.
pub open spec fn volume_strip_ops(sv: StripView, data: Seq<OHLC>, e: Volume) -> Seq<PaintOp> {
    let maxv = spec_max_vol(data, data.len() as int);
    let head = seq![
        PaintOp::Text { at: (8usize, 8usize), label: Label::Lit("Volume"), rgba: e.label_colour },
    ] + vol_line_ops(sv, 0, 0, e.label_colour);
    if maxv > 0 {
        let period = sv.timeframe / (data.len() as int);
        let pa = 4 * period / 5;
        head + vol_line_ops(sv, 1, maxv / 2, e.label_colour) + vol_line_ops(
            sv,
            2,
            maxv,
            e.label_colour,
        ) + vol_bars_ops(sv, e, data, maxv, period, pa, data.len() as int)
    } else {
        head
    }
}

/// The volume strip: one bar per candle in a sub-panel, scaled to the
/// largest total volume; where buy volume is known the bar splits into a
/// buy segment below and a sell segment above, otherwise it is drawn in
/// one generic colour.
#[derive(Clone, Copy, Debug)]
pub struct Volume {
    /// Colour of the reference lines and labels.
    pub label_colour: u32,
    /// Colour of the buy segment.
    pub buy_colour: u32,
    /// Colour of the sell segment.
    pub sell_colour: u32,
    /// Colour of unsplit bars.
    pub generic_colour: u32,
}

impl Volume {
    /// A volume strip with the given colours.
    pub fn new(label_colour: u32, buy_colour: u32, sell_colour: u32, generic_colour: u32) -> (r:
        Volume)
        ensures
            r.label_colour == label_colour,
            r.buy_colour == buy_colour,
            r.sell_colour == sell_colour,
            r.generic_colour == generic_colour,
            r.wf(),
    {
        Volume { label_colour, buy_colour, sell_colour, generic_colour }
    }
}

impl RendererExtension for Volume {
    open spec fn wf(&self) -> bool {
        true
    }

    open spec fn name_spec(&self) -> Seq<char> {
        "Volume"@
    }

    open spec fn lore_colour_spec(&self) -> Option<u32> {
        None
    }

    open spec fn painted(&self, pre: crate::buffer::ChartView, data: Seq<OHLC>) -> Seq<u8> {
        let sv = crate::buffer::sub_strip_of(pre, 175);
        let strip_bytes = crate::painting::ops_bytes(
            crate::painting::fill_bytes(pre.width * 175, pre.background),
            pre.width,
            175,
            pre.background,
            volume_strip_ops(sv, data, *self),
        );
        if pre.height + 175 <= MAX_DIM {
            pre.bytes + strip_bytes
        } else {
            pre.bytes
        }
    }

    fn apply(&self, buffer: &mut ChartBuffer, data: &[OHLC]) {
        let n = data.len();
        // the scale of the panel: the largest total volume
        let mut max_vol: i64 = 0;
        let mut i: usize = 0;
        while i < n
            invariant
                n == data@.len(),
                crate::data::candles_in_range(data@),
                0 <= i <= n,
                0 <= max_vol <= PRICE_LIMIT,
                max_vol as int == spec_max_vol(data@, i as int),
            decreases n - i,
        {
            proof {
                assert(crate::data::in_price_range(data@[i as int]));
            }
            let v = data[i].v;
            if v > max_vol {
                max_vol = v;
            }
            i = i + 1;
        }
        let strip_result = buffer.create_extension_strip(175);
        let mut strip = match strip_result {
            Ok(s) => s,
            Err(_) => {
                proof {
                    assert(false);
                }
                return ;
            },
        };
        let ghost sv = strip.view();
        let mut ops: Vec<PaintOp> = Vec::new();
        ops.push(
            PaintOp::Text { at: (8, 8), label: Label::Lit("Volume"), rgba: self.label_colour },
        );
        // reference lines at empty, half and full scale, labelled with the
        // volume rounded to three significant figures
        push_volume_line(&mut ops, &strip, 0, 0, self.label_colour);
        if max_vol > 0 {
            push_volume_line(&mut ops, &strip, 1, (max_vol / 2) as u64, self.label_colour);
            push_volume_line(&mut ops, &strip, 2, max_vol as u64, self.label_colour);
            let ghost head = ops@;
            // the bars themselves
            let tf = strip.timeframe as u64;
            let period = tf / (n as u64);
            let pa = 4 * period / 5;
            let ghost periodg = period as int;
            let ghost pag = pa as int;
            proof {
                crate::rex::macd::lemma_period_bound(tf as int, n as int, period as int);
                assert(4 * (period as int) <= 5 * (period as int)) by (nonlinear_arith)
                    requires
                        0 <= period,
                ;
                vstd::arithmetic::div_mod::lemma_div_is_ordered(
                    4 * (period as int),
                    5 * (period as int),
                    5,
                );
                vstd::arithmetic::div_mod::lemma_div_multiples_vanish(period as int, 5);
                assert(5 * (period as int) == (period as int) * 5) by (nonlinear_arith);
            }
            let mut i: usize = 0;
            while i < n
                invariant
                    strip.wf(),
                    sv == strip.view(),
                    0 < n == data@.len(),
                    crate::data::candles_in_range(data@),
                    0 < max_vol <= PRICE_LIMIT,
                    period <= crate::buffer::TIME_LIMIT as u64,
                    pa <= period,
                    periodg == period as int,
                    pag == pa as int,
                    forall|j: int|
                        0 <= j < data@.len() ==> #[trigger] (j * period as int) + period as int
                            <= crate::buffer::TIME_LIMIT,
                    0 <= i <= n,
                    forall|j: int| 0 <= j < ops@.len() ==> op_ok(#[trigger] ops@[j]),
                    ops@ == head + vol_bars_ops(
                        sv,
                        *self,
                        data@,
                        max_vol as int,
                        periodg,
                        pag,
                        i as int,
                    ),
                decreases n - i,
            {
                proof {
                    assert((i as int) * (period as int) + period as int
                        <= crate::buffer::TIME_LIMIT);
                    assert(crate::data::in_price_range(data@[i as int]));
                }
                let left_most = ((i as u64) * period) as i64;
                let right_most = ((i as u64) * period + pa) as i64;
                let candle = &data[i];
                let bottom_left = strip.data_to_coords(0, max_vol, left_most);
                let ghost bar = vol_bar(sv, *self, data@, max_vol as int, periodg, pag, i as int);
                match candle.bv {
                    Some(b) => {
                        let mid_right = strip.data_to_coords(b, max_vol, right_most);
                        let top_left = strip.data_to_coords(candle.v, max_vol, left_most);
                        let buy = PaintOp::Rect {
                            a: bottom_left,
                            b: mid_right,
                            rgba: self.buy_colour,
                        };
                        let sell = PaintOp::Rect {
                            a: mid_right,
                            b: top_left,
                            rgba: self.sell_colour,
                        };
                        proof {
                            assert(head + vol_bars_ops(
                                sv,
                                *self,
                                data@,
                                max_vol as int,
                                periodg,
                                pag,
                                i as int + 1,
                            ) =~= ops@.push(buy).push(sell));
                        }
                        ops.push(buy);
                        ops.push(sell);
                    },
                    None => {
                        let top_right = strip.data_to_coords(candle.v, max_vol, right_most);
                        let one = PaintOp::Rect {
                            a: bottom_left,
                            b: top_right,
                            rgba: self.generic_colour,
                        };
                        proof {
                            assert(head + vol_bars_ops(
                                sv,
                                *self,
                                data@,
                                max_vol as int,
                                periodg,
                                pag,
                                i as int + 1,
                            ) =~= ops@.push(one));
                        }
                        ops.push(one);
                    },
                }
                i = i + 1;
            }
        }
        proof {
            assert(ops@ == volume_strip_ops(sv, data@, *self));
        }
        strip.paint_ops(&ops);
        if buffer.height() <= MAX_DIM - 175 {
            buffer.attach_extension_strip(strip);
        }
    }

    fn name(&self) -> (r: String) {
        String::from_str("Volume")
    }

    fn lore_colour(&self) -> (r: Option<u32>) {
        None
    }
}

/// Append the display list of one volume reference line, at empty, half
/// or full height (`level` 0, 1 or 2), captioned with its volume value.
fn push_volume_line(ops: &mut Vec<PaintOp>, strip: &ExtensionStrip, level: u8, value: u64, colour: u32)
    requires
        strip.wf(),
        level <= 2,
        value <= PRICE_LIMIT as u64,
    ensures
        final(ops)@ == old(ops)@ + vol_line_ops(strip.view(), level as int, value as int, colour),
        forall|j: int|
            old(ops)@.len() <= j < final(ops)@.len() ==> op_ok(#[trigger] final(ops)@[j]),
        forall|j: int| 0 <= j < old(ops)@.len() ==> final(ops)@[j] == old(ops)@[j],
{
    let num: i64 = level as i64;
    let p1 = strip.data_to_coords(num, 2, 0);
    let p2 = strip.data_to_coords(num, 2, strip.timeframe);
    let rounded = keep_msf(value, 3);
    proof {
        lemma_keep_msf_bound(value as int);
    }
    let ly = if p2.1 >= 9 {
        p2.1 - 9
    } else {
        0
    };
    let line = PaintOp::Line { a: p1, b: p2, rgba: colour };
    let text = PaintOp::TextOutline {
        at: (p2.0 + 5, ly),
        label: Label::Unsigned(rounded),
        rgba: colour,
    };
    proof {
        assert(old(ops)@ + vol_line_ops(strip.view(), level as int, value as int, colour)
            =~= old(ops)@.push(line).push(text));
    }
    ops.push(line);
    ops.push(text);
}

/// A rounded volume stays a volume-sized number.
proof fn lemma_keep_msf_bound(value: int)
    requires
        0 <= value <= PRICE_LIMIT as int,
    ensures
        spec_keep_msf(value, 3) >= 0,
{
    if value > 0 && spec_num_digits(value) > 3 {
        let factor = spec_pow10(spec_num_digits(value) - 3);
        lemma_pow10_pos(spec_num_digits(value) - 3);
        vstd::arithmetic::div_mod::lemma_div_pos_is_pos(value + factor / 2, factor);
        assert(((value + factor / 2) / factor) * factor >= 0) by (nonlinear_arith)
            requires
                (value + factor / 2) / factor >= 0,
                factor >= 1,
        ;
    }
}

} // verus!
