//! The CPU block: a stateful jiffy-counter sampler over the kernel
//! statistics pseudo-file, and its template rendering.
//!
//! The embedding program reads the pseudo-file and hands the text in; this
//! module finds the aggregate `cpu ` line, parses its counters, computes the
//! delta against the previous call's baseline and renders the utilization
//! percentage into the block's format template.

use vstd::prelude::*;

use crate::errors::BlockError;
use crate::num::{
    dec_str, dec_val, digit_char, is_u64_numeral, parse_u64_str, u64_to_string, unsigned_body,
};
use crate::text::{has_prefix, is_prefix, lines_of, lines_spec, replace_spec, replace_str, tokens, tokens_of};

verus! {

/// Saturating subtraction: counter deltas never go negative, so a counter
/// reset or a stale peer value yields a zero delta instead of a wrap.
pub open spec fn sat_sub(a: u64, b: u64) -> u64 {
    if a >= b {
        (a - b) as u64
    } else {
        0
    }
}

/// Saturating addition: a sum of counters sticks at the maximum instead of
/// wrapping.
pub open spec fn sat_add(a: u64, b: u64) -> u64 {
    if a + b > u64::MAX {
        u64::MAX
    } else {
        (a + b) as u64
    }
}

/// Sum of a sequence of counters, as unbounded arithmetic.
pub open spec fn sum_u64(vs: Seq<u64>) -> nat
    decreases vs.len(),
{
    if vs.len() == 0 {
        0
    } else {
        sum_u64(vs.drop_last()) + vs.last() as nat
    }
}

/// The sum clipped to `u64`, which is what a left-to-right saturating fold
/// computes.
pub open spec fn sum_sat(vs: Seq<u64>) -> u64 {
    if sum_u64(vs) > u64::MAX {
        u64::MAX
    } else {
        sum_u64(vs) as u64
    }
}

/// The first of the lines that begins with the given prefix, if any.
pub open spec fn first_line_with_prefix(ls: Seq<Seq<char>>, p: Seq<char>) -> Option<Seq<char>>
    decreases ls.len(),
{
    if ls.len() == 0 {
        None
    } else if has_prefix(ls[0], p) {
        Some(ls[0])
    } else {
        first_line_with_prefix(ls.skip(1), p)
    }
}

/// The fields that parse as `u64`, in order; the failures are dropped, as a
/// `filter_map` over `str::parse` drops them.
pub open spec fn parsed_u64s(toks: Seq<Seq<char>>) -> Seq<u64>
    decreases toks.len(),
{
    if toks.len() == 0 {
        Seq::empty()
    } else if is_u64_numeral(toks[0]) {
        seq![dec_val(unsigned_body(toks[0])) as u64] + parsed_u64s(toks.skip(1))
    } else {
        parsed_u64s(toks.skip(1))
    }
}

/// A sequence without its first element, or unchanged when empty.
pub open spec fn rest_of<A>(s: Seq<A>) -> Seq<A> {
    if s.len() == 0 {
        s
    } else {
        s.skip(1)
    }
}

/// The aggregate CPU line of the statistics pseudo-file: the first line that
/// begins with `cpu `.
pub open spec fn cpu_line_of(content: Seq<char>) -> Option<Seq<char>> {
    first_line_with_prefix(lines_spec(content), "cpu "@)
}

/// The counters of the aggregate line: every whitespace-separated field
/// after the leading label that parses as an unsigned 64-bit integer.
pub open spec fn cpu_values(line: Seq<char>) -> Seq<u64> {
    parsed_u64s(rest_of(tokens(line)))
}

/// Idle plus iowait; the iowait field is optional and defaults to zero.
pub open spec fn stat_idle_total(vs: Seq<u64>) -> u64
    recommends
        vs.len() >= 4,
{
    sat_add(vs[3], if vs.len() >= 5 { vs[4] } else { 0 })
}

/// Total jiffies: the sum of all parsed fields.
pub open spec fn stat_total(vs: Seq<u64>) -> u64 {
    sum_sat(vs)
}

/// The two deltas of one sampling step: `(active, total)`, both saturating,
/// with the active share never exceeding the total.
pub open spec fn cpu_deltas(prev_idle: u64, prev_total: u64, idle_total: u64, total: u64) -> (
    u64,
    u64,
) {
    let idle_delta = sat_sub(idle_total, prev_idle);
    let total_delta = sat_sub(total, prev_total);
    (sat_sub(total_delta, idle_delta), total_delta)
}

/// Utilization as a whole percentage, rounded half up; zero when no time
/// passed.
pub open spec fn usage_whole(active: u64, total_delta: u64) -> u64
    recommends
        active <= total_delta,
{
    if total_delta == 0 {
        0
    } else {
        ((active as int * 100 + total_delta as int / 2) / (total_delta as int)) as u64
    }
}

/// Utilization in tenths of a percent, rounded half up; zero when no time
/// passed.
pub open spec fn usage_tenths(active: u64, total_delta: u64) -> u64
    recommends
        active <= total_delta,
{
    if total_delta == 0 {
        0
    } else {
        ((active as int * 1000 + total_delta as int / 2) / (total_delta as int)) as u64
    }
}

/// With saturating deltas the usage percentage always lies in `[0, 100]`
/// (and its tenths in `[0, 1000]`), whatever the counters did between the
/// two calls — including a counter decrease.
pub proof fn lemma_usage_in_range(prev_idle: u64, prev_total: u64, idle_total: u64, total: u64)
    ensures
        cpu_deltas(prev_idle, prev_total, idle_total, total).0 <= cpu_deltas(
            prev_idle,
            prev_total,
            idle_total,
            total,
        ).1,
        usage_whole(
            cpu_deltas(prev_idle, prev_total, idle_total, total).0,
            cpu_deltas(prev_idle, prev_total, idle_total, total).1,
        ) <= 100,
        usage_tenths(
            cpu_deltas(prev_idle, prev_total, idle_total, total).0,
            cpu_deltas(prev_idle, prev_total, idle_total, total).1,
        ) <= 1000,
{
    let (a, t) = cpu_deltas(prev_idle, prev_total, idle_total, total);
    if t != 0 {
        assert((a as int * 100 + t as int / 2) / (t as int) <= 100 && (a as int * 1000 + t as int / 2) / (t as int) <= 1000)
            by (nonlinear_arith)
            requires
                0 <= a <= t,
                t > 0,
        ;
    }
}

/// Reading the same counters twice in a row yields zero usage: the deltas of
/// a repeated snapshot are zero, and a zero total delta reports zero.
pub proof fn lemma_no_advance_zero_usage(idle_total: u64, total: u64)
    ensures
        cpu_deltas(idle_total, total, idle_total, total) == (0u64, 0u64),
        usage_whole(0, 0) == 0,
        usage_tenths(0, 0) == 0,
{
}

/// The rendered one-decimal percentage, `whole.tenth`.
pub open spec fn one_decimal_str(tenths: u64) -> Seq<char> {
    dec_str((tenths / 10) as nat) + seq!['.'] + seq![digit_char((tenths % 10) as nat)]
}

/// The CPU template with its tokens substituted, in order: `{}` and
/// `{usage}` take the whole-percent rounding, `{percent}` the one-decimal
/// rounding.
pub open spec fn cpu_rendered(fmt: Seq<char>, active: u64, total_delta: u64) -> Seq<char> {
    let whole = dec_str(usage_whole(active, total_delta) as nat);
    let one_dec = one_decimal_str(usage_tenths(active, total_delta));
    replace_spec(
        replace_spec(replace_spec(fmt, "{}"@, whole), "{percent}"@, one_dec),
        "{usage}"@,
        whole,
    )
}

/// The stateful CPU collector of one block: its format template, refresh
/// interval, display color and the jiffy baselines of the previous call.
pub struct Cpu {
    pub format: String,
    pub interval_secs: u64,
    pub color: u32,
    pub prev_idle: u64,
    pub prev_total: u64,
}

impl Cpu {
    /// A fresh collector: the baseline starts at zero, so the first call
    /// measures against the machine's whole uptime.  A block's refresh
    /// interval is always positive.
    pub fn new(format: &str, interval_secs: u64, color: u32) -> (r: Cpu)
        requires
            interval_secs > 0,
        ensures
            r.format@ == format@,
            r.interval_secs == interval_secs,
            r.color == color,
            r.prev_idle == 0,
            r.prev_total == 0,
    {
        Cpu { format: format.to_owned(), interval_secs, color, prev_idle: 0, prev_total: 0 }
    }

    /// The fixed refresh period, in seconds.
    pub fn interval(&self) -> (r: u64)
        ensures
            r == self.interval_secs,
    {
        self.interval_secs
    }

    /// The fixed display color.
    pub fn color(&self) -> (r: u32)
        ensures
            r == self.color,
    {
        self.color
    }

    /// One sampling step: computes the saturating deltas against the stored
    /// baseline and unconditionally replaces the baseline with the new
    /// reading.  Returns `(active_delta, total_delta)`.
    pub fn sample(&mut self, idle_total: u64, total: u64) -> (r: (u64, u64))
        ensures
            r == cpu_deltas(old(self).prev_idle, old(self).prev_total, idle_total, total),
            r.0 <= r.1,
            final(self).prev_idle == idle_total,
            final(self).prev_total == total,
            final(self).format == old(self).format,
            final(self).interval_secs == old(self).interval_secs,
            final(self).color == old(self).color,
    {
        let idle_delta = idle_total.saturating_sub(self.prev_idle);
        let total_delta = total.saturating_sub(self.prev_total);
        self.prev_idle = idle_total;
        self.prev_total = total;
        (total_delta.saturating_sub(idle_delta), total_delta)
    }
}

/// Utilization as a whole percentage, rounded half up; in `[0, 100]`.
pub fn usage_percent_whole(active: u64, total_delta: u64) -> (r: u64)
    requires
        active <= total_delta,
    ensures
        r == usage_whole(active, total_delta),
        r <= 100,
{
    if total_delta == 0 {
        0
    } else {
        let num: u128 = (active as u128) * 100 + (total_delta as u128) / 2;
        let q = num / (total_delta as u128);
        proof {
            assert((active as int * 100 + total_delta as int / 2) / (total_delta as int) <= 100) by (nonlinear_arith)
                requires
                    0 <= active <= total_delta,
                    total_delta > 0,
            ;
        }
        q as u64
    }
}

/// Utilization in tenths of a percent, rounded half up; in `[0, 1000]`.
pub fn usage_percent_tenths(active: u64, total_delta: u64) -> (r: u64)
    requires
        active <= total_delta,
    ensures
        r == usage_tenths(active, total_delta),
        r <= 1000,
{
    if total_delta == 0 {
        0
    } else {
        let num: u128 = (active as u128) * 1000 + (total_delta as u128) / 2;
        let q = num / (total_delta as u128);
        proof {
            assert((active as int * 1000 + total_delta as int / 2) / (total_delta as int) <= 1000) by (nonlinear_arith)
                requires
                    0 <= active <= total_delta,
                    total_delta > 0,
            ;
        }
        q as u64
    }
}

/// The first line of the text that begins with the given prefix.
pub fn find_line_with_prefix(s: &str, p: &str) -> (r: Option<String>)
    ensures
        match r {
            Some(l) => first_line_with_prefix(lines_spec(s@), p@) == Some(l@),
            None => first_line_with_prefix(lines_spec(s@), p@) is None,
        },
{
    let ls = lines_of(s);
    let ghost lsv = lines_spec(s@);
    assert(lsv.skip(0) =~= lsv);
    let mut i: usize = 0;
    while i < ls.len()
        invariant
            0 <= i <= ls.len(),
            lsv == lines_spec(s@),
            ls.deep_view() == lsv,
            first_line_with_prefix(lsv, p@) == first_line_with_prefix(lsv.skip(i as int), p@),
        decreases ls.len() - i,
    {
        assert(lsv.skip(i as int)[0] == lsv[i as int]);
        if is_prefix(ls[i].as_str(), p) {
            assert(first_line_with_prefix(lsv.skip(i as int), p@) == Some(lsv[i as int]));
            return Some(ls[i].clone());
        }
        assert(lsv.skip(i as int).skip(1) =~= lsv.skip(i as int + 1));
        i = i + 1;
    }
    assert(lsv.skip(i as int) =~= Seq::<Seq<char>>::empty());
    None
}

/// The counters of a line: every field after the label that parses.
pub fn parse_cpu_values(line: &str) -> (r: Vec<u64>)
    ensures
        r@ == cpu_values(line@),
{
    let toks = tokens_of(line);
    let ghost tv = tokens(line@);
    let mut vals: Vec<u64> = Vec::new();
    if toks.len() == 0 {
        assert(parsed_u64s(rest_of(tv)) =~= Seq::<u64>::empty());
        return vals;
    }
    let mut i: usize = 1;
    while i < toks.len()
        invariant
            1 <= i <= toks.len(),
            toks.deep_view() == tv,
            tv.len() > 0,
            parsed_u64s(tv.skip(1)) == vals@ + parsed_u64s(tv.skip(i as int)),
        decreases toks.len() - i,
    {
        assert(tv.skip(i as int)[0] == tv[i as int]);
        assert(tv.skip(i as int).skip(1) =~= tv.skip(i as int + 1));
        match parse_u64_str(toks[i].as_str()) {
            Some(v) => {
                vals.push(v);
                assert(parsed_u64s(tv.skip(1)) =~= vals@ + parsed_u64s(tv.skip(i as int + 1)));
            },
            None => {
                assert(parsed_u64s(tv.skip(1)) =~= vals@ + parsed_u64s(tv.skip(i as int + 1)));
            },
        }
        i = i + 1;
    }
    assert(tv.skip(i as int) =~= Seq::<Seq<char>>::empty());
    assert(vals@ =~= vals@ + parsed_u64s(tv.skip(i as int)));
    vals
}

/// Sum of the counters, saturating at the maximum.
pub fn sum_values(vs: &Vec<u64>) -> (r: u64)
    ensures
        r == sum_sat(vs@),
{
    let mut acc: u64 = 0;
    let mut i: usize = 0;
    while i < vs.len()
        invariant
            0 <= i <= vs.len(),
            acc == sum_sat(vs@.take(i as int)),
        decreases vs.len() - i,
    {
        assert(vs@.take(i as int + 1).drop_last() =~= vs@.take(i as int));
        acc = acc.saturating_add(vs[i]);
        i = i + 1;
    }
    assert(vs@.take(vs.len() as int) =~= vs@);
    acc
}

/// Parses the statistics pseudo-file text into `(idle_total, total)`.
/// Fails when no aggregate `cpu ` line exists or it has fewer than four
/// numeric fields.
pub fn parse_stat(stat: &str) -> (r: Result<(u64, u64), BlockError>)
    ensures
        match cpu_line_of(stat@) {
            None => r matches Err(BlockError::Io(m)) && m@ == "CPU line not found in /proc/stat"@,
            Some(line) => {
                let vs = cpu_values(line);
                if vs.len() < 4 {
                    r matches Err(BlockError::Io(m)) && m@ == "Invalid CPU values in /proc/stat"@
                } else {
                    r matches Ok(p) && p.0 == stat_idle_total(vs) && p.1 == stat_total(vs)
                }
            },
        },
{
    let line = match find_line_with_prefix(stat, "cpu ") {
        Some(l) => l,
        None => {
            return Err(BlockError::Io("CPU line not found in /proc/stat".to_owned()));
        },
    };
    let vals = parse_cpu_values(line.as_str());
    if vals.len() < 4 {
        return Err(BlockError::Io("Invalid CPU values in /proc/stat".to_owned()));
    }
    let idle = vals[3];
    let iowait = if vals.len() >= 5 {
        vals[4]
    } else {
        0
    };
    let total = sum_values(&vals);
    Ok((idle.saturating_add(iowait), total))
}

/// Substitutes the utilization into the CPU template: `{}` and `{usage}`
/// with the whole percentage, `{percent}` with one decimal, in that order.
pub fn render_cpu(fmt: &str, active: u64, total_delta: u64) -> (r: String)
    requires
        active <= total_delta,
    ensures
        r@ == cpu_rendered(fmt@, active, total_delta),
{
    proof {
        reveal_strlit("{}");
        reveal_strlit("{percent}");
        reveal_strlit("{usage}");
        reveal_strlit(".");
    }
    let whole = u64_to_string(usage_percent_whole(active, total_delta));
    let tenths = usage_percent_tenths(active, total_delta);
    let mut one_dec = u64_to_string(tenths / 10);
    one_dec.append(".");
    one_dec.append(crate::num::u64_to_string(tenths % 10).as_str());
    assert(one_dec@ =~= one_decimal_str(usage_tenths(active, total_delta))) by {
        assert(dec_str((tenths % 10) as nat) =~= seq![digit_char((tenths % 10) as nat)]);
    }
    let step1 = replace_str(fmt, "{}", whole.as_str());
    let step2 = replace_str(step1.as_str(), "{percent}", one_dec.as_str());
    replace_str(step2.as_str(), "{usage}", whole.as_str())
}

impl Cpu {
    /// One full collection-and-render cycle over the given pseudo-file text:
    /// parses the aggregate line, advances the baseline, renders the
    /// template.  On a parse failure the baseline is left untouched and the
    /// error is propagated, as a missing statistics file is fatal for this
    /// refresh.
    pub fn content(&mut self, stat: &str) -> (r: Result<String, BlockError>)
        ensures
            final(self).format == old(self).format,
            final(self).interval_secs == old(self).interval_secs,
            final(self).color == old(self).color,
            match cpu_line_of(stat@) {
                None => {
                    &&& r matches Err(BlockError::Io(m)) && m@
                        == "CPU line not found in /proc/stat"@
                    &&& final(self).prev_idle == old(self).prev_idle
                    &&& final(self).prev_total == old(self).prev_total
                },
                Some(line) => {
                    let vs = cpu_values(line);
                    if vs.len() < 4 {
                        &&& r matches Err(BlockError::Io(m)) && m@
                            == "Invalid CPU values in /proc/stat"@
                        &&& final(self).prev_idle == old(self).prev_idle
                        &&& final(self).prev_total == old(self).prev_total
                    } else {
                        let deltas = cpu_deltas(
                            old(self).prev_idle,
                            old(self).prev_total,
                            stat_idle_total(vs),
                            stat_total(vs),
                        );
                        &&& r matches Ok(out) && out@ == cpu_rendered(
                            old(self).format@,
                            deltas.0,
                            deltas.1,
                        )
                        &&& final(self).prev_idle == stat_idle_total(vs)
                        &&& final(self).prev_total == stat_total(vs)
                    }
                },
            },
    {
        let (idle_total, total) = match parse_stat(stat) {
            Ok(p) => p,
            Err(e) => {
                return Err(e);
            },
        };
        let (active, total_delta) = self.sample(idle_total, total);
        Ok(render_cpu(self.format.as_str(), active, total_delta))
    }
}

} // verus!
