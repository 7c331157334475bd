use vstd::prelude::*;
use crate::driver::PhasePoint;
use crate::stats::MAX_SAMPLES;

verus! {

/// The decimal digits of `n`, most significant first, as ASCII bytes.
pub open spec fn dec_bytes(n: nat) -> Seq<u8>
    decreases n,
{
    if n < 10 {
        seq![(48 + n) as u8]
    } else {
        dec_bytes((n / 10) as nat).push((48 + n % 10) as u8)
    }
}

/// `v` micro-units rendered as a fixed-point decimal with exactly six
/// fractional digits: the integer part, a point, then the fraction padded
/// with leading zeroes.  The padding borrows a leading one: the fraction plus
/// one million always has seven digits, and the first is dropped.
pub open spec fn fixed6_bytes(v: nat) -> Seq<u8> {
    dec_bytes(v / 1000000) + seq![46u8] + dec_bytes((v % 1000000 + 1000000) as nat).skip(1)
}

/// One table row: the attribute count, two tabs, the mean, a tab, the
/// standard deviation, and a newline.
pub open spec fn row_bytes(attr: nat, mean: nat, sd: nat) -> Seq<u8> {
    dec_bytes(attr) + seq![9u8, 9u8] + fixed6_bytes(mean) + seq![9u8] + fixed6_bytes(sd) + seq![
        10u8,
    ]
}

/// The rows of one phase table, attribute counts ascending from one.
pub open spec fn table_bytes(series: Seq<PhasePoint>) -> Seq<u8>
    decreases series.len(),
{
    if series.len() == 0 {
        Seq::empty()
    } else {
        table_bytes(series.drop_last()) + row_bytes(
            series.len() as nat,
            series.last().mean_micros as nat,
            series.last().stddev_micros as nat,
        )
    }
}

fn push_dec(n: u64, out: &mut Vec<u8>)
    ensures
        final(out)@ =~= old(out)@ + dec_bytes(n as nat),
    decreases n,
{
    if n < 10 {
        out.push(48 + (n as u8));
    } else {
        push_dec(n / 10, out);
        out.push(48 + ((n % 10) as u8));
    }
}

fn push_fixed6(v: u64, out: &mut Vec<u8>)
    ensures
        final(out)@ =~= old(out)@ + fixed6_bytes(v as nat),
{
    push_dec(v / 1000000, out);
    out.push(46);
    let ghost base = out@;
    let padded = (v % 1000000) + 1000000;
    let mut tmp: Vec<u8> = Vec::new();
    push_dec(padded, &mut tmp);
    assert(tmp@.len() >= 1);
    let mut j: usize = 1;
    while j < tmp.len()
        invariant
            1 <= j <= tmp@.len(),
            tmp@ == dec_bytes(padded as nat),
            out@ =~= base + tmp@.subrange(1, j as int),
        decreases tmp@.len() - j,
    {
        let b = tmp[j];
        out.push(b);
        proof {
            assert(out@ =~= base + tmp@.subrange(1, j as int + 1));
        }
        j = j + 1;
    }
    proof {
        assert(tmp@.subrange(1, tmp@.len() as int) =~= tmp@.skip(1));
        assert(final(out)@ =~= old(out)@ + fixed6_bytes(v as nat));
    }
}

/// Renders the data rows of the three phase tables from finished snapshot
/// series; the surrounding header text is left to the caller.
pub struct ReportFormatter;

impl ReportFormatter {
    /// The rows of one phase table as ASCII bytes, one row per
    /// attribute-count value, ascending from one, with the mean and the
    /// population standard deviation in fixed six-digit decimal precision.
    pub fn render_rows(series: &Vec<PhasePoint>) -> (r: Vec<u8>)
        requires
            series@.len() <= MAX_SAMPLES,
        ensures
            r@ =~= table_bytes(series@),
    {
        let mut out: Vec<u8> = Vec::new();
        let mut idx: usize = 0;
        while idx < series.len()
            invariant
                0 <= idx <= series@.len(),
                series@.len() <= MAX_SAMPLES,
                out@ =~= table_bytes(series@.take(idx as int)),
            decreases series@.len() - idx,
        {
            let ghost before = out@;
            let attr = (idx as u64) + 1;
            push_dec(attr, &mut out);
            out.push(9);
            out.push(9);
            push_fixed6(series[idx].mean_micros, &mut out);
            out.push(9);
            push_fixed6(series[idx].stddev_micros, &mut out);
            out.push(10);
            proof {
                let taken = series@.take(idx as int + 1);
                assert(taken.drop_last() =~= series@.take(idx as int));
                assert(taken.last() == series@[idx as int]);
                assert(out@ =~= before + row_bytes(
                    attr as nat,
                    series@[idx as int].mean_micros as nat,
                    series@[idx as int].stddev_micros as nat,
                ));
                assert(out@ =~= table_bytes(taken));
            }
            idx = idx + 1;
        }
        proof {
            assert(series@.take(series@.len() as int) =~= series@);
        }
        out
    }
}

} // verus!
