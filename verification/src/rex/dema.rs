use vstd::prelude::*;
use vstd::string::StringExecFns;

use crate::buffer::ChartBuffer;
use crate::data::OHLC;
use crate::rex::ema::draw_series;
use crate::rex::ema::ema;
use crate::rex::ema::ema_seq;
use crate::rex::ema::median_list;
use crate::rex::ema::median_seq;
use crate::rex::ema::EMA;
use crate::rex::ema::EMA_VALUE_LIMIT;
use crate::rex::RendererExtension;
use crate::utils::spec_decimal;
use crate::utils::u64_to_string;

verus! {

/// The double-average series: twice the moving average of the medians,
/// minus the moving average of that average series, pointwise.
pub open spec fn dema_seq(data: Seq<OHLC>, periods: int, num: int, den: int) -> Seq<i64> {
    let e1 = ema_seq(median_seq(data), periods, num, den);
    let e2 = ema_seq(e1, periods, num, den);
    Seq::new(e1.len(), |p: int| (2 * e1[p] - e2[p]) as i64)
}

/// A double-exponential-moving-average overlay: twice the moving average
/// of the medians, minus the moving average of that average series, drawn
/// as a polyline.
#[derive(Clone, Copy, Debug)]
pub struct DEMA {
    /// The moving-average configuration the double average is built from.
    pub inner: EMA,
}

impl DEMA {
    /// A double moving average over the given single-average
    /// configuration.
    pub fn new(ema: EMA) -> (r: DEMA)
        requires
            ema.wf(),
        ensures
            r.inner == ema,
            r.wf(),
    {
        DEMA { inner: ema }
    }
}

impl RendererExtension for DEMA {
    open spec fn wf(&self) -> bool {
        self.inner.wf()
    }

    open spec fn name_spec(&self) -> Seq<char> {
        "DEMA("@ + spec_decimal(self.inner.periods as int) + ", sf="@ + spec_decimal(
            self.inner.sf_num as int,
        ) + "/"@ + spec_decimal(self.inner.sf_den as int) + ")"@
    }

    open spec fn lore_colour_spec(&self) -> Option<u32> {
        Some(self.inner.colour)
    }

    open spec fn painted(&self, pre: crate::buffer::ChartView, data: Seq<OHLC>) -> Seq<u8> {
        crate::rex::ema::series_painted(
            pre,
            dema_seq(
                data,
                self.inner.periods as int,
                self.inner.sf_num as int,
                self.inner.sf_den as int,
            ),
            self.inner.colour,
            self.inner.periods as int,
        )
    }

    fn apply(&self, buffer: &mut ChartBuffer, data: &[OHLC]) {
        let medians = median_list(data);
        let e1 = ema(&self.inner, medians.as_slice());
        let e2 = ema(&self.inner, e1.as_slice());
        let mut dema_buf = copy_values(&e1);
        multply_all(&mut dema_buf, 2);
        subtract(&mut dema_buf, &e2);
        proof {
            assert(medians@ =~= median_seq(data@));
            assert(e1@ =~= ema_seq(
                median_seq(data@),
                self.inner.periods as int,
                self.inner.sf_num as int,
                self.inner.sf_den as int,
            ));
            assert(e2@ =~= ema_seq(
                e1@,
                self.inner.periods as int,
                self.inner.sf_num as int,
                self.inner.sf_den as int,
            ));
            assert(dema_buf@ =~= dema_seq(
                data@,
                self.inner.periods as int,
                self.inner.sf_num as int,
                self.inner.sf_den as int,
            ));
        }
        draw_series(buffer, dema_buf.as_slice(), self.inner.periods, self.inner.colour);
    }

    fn name(&self) -> (r: String) {
        let mut s = String::from_str("DEMA(");
        s.append(u64_to_string(self.inner.periods as u64).as_str());
        s.append(", sf=");
        s.append(u64_to_string(self.inner.sf_num as u64).as_str());
        s.append("/");
        s.append(u64_to_string(self.inner.sf_den as u64).as_str());
        s.append(")");
        proof {
            assert(s@ =~= self.name_spec());
        }
        s
    }

    fn lore_colour(&self) -> (r: Option<u32>) {
        Some(self.inner.colour)
    }
}

/// A fresh vector with the same values.
pub(crate) fn copy_values(v: &Vec<i64>) -> (r: Vec<i64>)
    ensures
        r@ == v@,
{
    let mut out: Vec<i64> = Vec::new();
    let n = v.len();
    let mut i: usize = 0;
    while i < n
        invariant
            0 <= i <= n,
            n == v@.len(),
            out@ == v@.take(i as int),
        decreases n - i,
    {
        proof {
            assert(v@.take(i as int + 1) =~= v@.take(i as int).push(v@[i as int]));
        }
        out.push(v[i]);
        i = i + 1;
    }
    proof {
        assert(v@.take(n as int) =~= v@);
    }
    out
}

/// Scale every value of the series by a factor, in place.
pub fn multply_all(buf: &mut Vec<i64>, factor: i64)
    requires
        -1000 <= factor <= 1000,
        forall|i: int|
            0 <= i < old(buf)@.len() ==> -EMA_VALUE_LIMIT <= #[trigger] old(buf)@[i]
                <= EMA_VALUE_LIMIT,
    ensures
        final(buf)@.len() == old(buf)@.len(),
        forall|i: int|
            0 <= i < old(buf)@.len() ==> #[trigger] final(buf)@[i] as int == factor as int * old(
                buf,
            )@[i] as int,
{
    let n = buf.len();
    let mut i: usize = 0;
    while i < n
        invariant
            0 <= i <= n,
            n == buf@.len(),
            -1000 <= factor <= 1000,
            forall|j: int|
                i <= j < n ==> -EMA_VALUE_LIMIT <= #[trigger] buf@[j] <= EMA_VALUE_LIMIT,
            forall|j: int|
                i <= j < n ==> #[trigger] buf@[j] == old(buf)@[j],
            forall|j: int|
                0 <= j < i ==> #[trigger] buf@[j] as int == factor as int * old(buf)@[j] as int,
        decreases n - i,
    {
        proof {
            assert(-1000 * EMA_VALUE_LIMIT as int <= factor as int * buf@[i as int] as int <= 1000
                * EMA_VALUE_LIMIT as int) by (nonlinear_arith)
                requires
                    -1000 <= factor <= 1000,
                    -EMA_VALUE_LIMIT <= buf@[i as int] <= EMA_VALUE_LIMIT,
            ;
        }
        let v = buf[i] * factor;
        buf[i] = v;
        i = i + 1;
    }
}

/// Subtract the second series from the first, in place; series of
/// different lengths are left untouched.
pub fn subtract(buf: &mut Vec<i64>, other: &Vec<i64>)
    requires
        forall|i: int|
            0 <= i < old(buf)@.len() ==> -0x2000_0000_0000_0000 <= #[trigger] old(buf)@[i]
                <= 0x2000_0000_0000_0000,
        forall|i: int|
            0 <= i < other@.len() ==> -0x2000_0000_0000_0000 <= #[trigger] other@[i]
                <= 0x2000_0000_0000_0000,
    ensures
        final(buf)@.len() == old(buf)@.len(),
        old(buf)@.len() == other@.len() ==> forall|i: int|
            0 <= i < old(buf)@.len() ==> #[trigger] final(buf)@[i] as int == old(buf)@[i]
                - other@[i],
        old(buf)@.len() != other@.len() ==> final(buf)@ == old(buf)@,
{
    let n = buf.len();
    if n != other.len() {
        return ;
    }
    let mut i: usize = 0;
    while i < n
        invariant
            0 <= i <= n,
            n == buf@.len() == other@.len(),
            forall|j: int|
                0 <= j < other@.len() ==> -0x2000_0000_0000_0000 <= #[trigger] other@[j]
                    <= 0x2000_0000_0000_0000,
            forall|j: int|
                i <= j < n ==> -0x2000_0000_0000_0000 <= #[trigger] buf@[j]
                    <= 0x2000_0000_0000_0000,
            forall|j: int|
                i <= j < n ==> #[trigger] buf@[j] == old(buf)@[j],
            forall|j: int|
                0 <= j < i ==> #[trigger] buf@[j] as int == old(buf)@[j] - other@[j],
        decreases n - i,
    {
        let v = buf[i] - other[i];
        buf[i] = v;
        i = i + 1;
    }
}

} // verus!
