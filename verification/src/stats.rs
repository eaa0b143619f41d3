//! Search statistics: shared run counters, throughput extrapolation, and the
//! rendering of the continuously overwritten status line.

use vstd::prelude::*;
use crate::text::{dec_chars, dec2_chars, grouped_chars, grouped_string, push_char, push_decimal,
    push_decimal2};

verus! {

/// One kibibyte.
pub const KB: u64 = 1024;

/// One mebibyte.
pub const MB: u64 = 1048576;

/// One gibibyte.
pub const GB: u64 = 1073741824;

/// One tebibyte.
pub const TB: u64 = 1099511627776;

/// The assumed average size of one persisted match record, in bytes.
pub const BYTES_PER_RECORD: u64 = 107;

/// The shared counters of one run: candidates generated and matches found.
pub struct RunCounters {
    /// Total candidates generated by all workers.
    pub generated: u64,
    /// Total matches found by all workers.
    pub found: u64,
}

impl RunCounters {
    /// Fresh counters, both zero.
    pub fn new() -> (r: RunCounters)
        ensures
            r.generated == 0,
            r.found == 0,
    {
        RunCounters { generated: 0, found: 0 }
    }

    /// Records one generated candidate.
    pub fn note_generated(&mut self)
        requires
            old(self).generated < u64::MAX,
        ensures
            final(self).generated == old(self).generated + 1,
            final(self).found == old(self).found,
    {
        self.generated = self.generated + 1;
    }

    /// Records one found match.
    pub fn note_found(&mut self)
        requires
            old(self).found < u64::MAX,
        ensures
            final(self).found == old(self).found + 1,
            final(self).generated == old(self).generated,
    {
        self.found = self.found + 1;
    }
}

/// The per-minute rate of `count` events over `elapsed` seconds: zero before
/// the first second has elapsed, rather than a division by zero.
pub open spec fn per_minute(count: nat, elapsed: nat) -> nat {
    if elapsed == 0 {
        0
    } else {
        count * 60 / elapsed
    }
}

/// The per-minute rate of `count` events over `elapsed_seconds`.
pub fn rate_per_minute(count: u64, elapsed_seconds: u64) -> (r: u128)
    ensures
        r == per_minute(count as nat, elapsed_seconds as nat),
        r <= count as u128 * 60,
{
    if elapsed_seconds == 0 {
        0
    } else {
        count as u128 * 60 / (elapsed_seconds as u128)
    }
}

/// Extrapolated event rates over a run, at growing time scales; the month is
/// approximated as thirty days.
pub struct Rates {
    /// Events per minute.
    pub per_minute: u128,
    /// Events per hour.
    pub per_hour: u128,
    /// Events per day.
    pub per_day: u128,
    /// Events per thirty-day month.
    pub per_month: u128,
}

/// Extrapolates the observed count over `elapsed_seconds` to event rates per
/// minute, hour, day and month. Before the first second has elapsed all rates
/// are zero.
pub fn extrapolate(count: u64, elapsed_seconds: u64) -> (r: Rates)
    ensures
        r.per_minute == per_minute(count as nat, elapsed_seconds as nat),
        r.per_hour == r.per_minute * 60,
        r.per_day == r.per_hour * 24,
        r.per_month == r.per_day * 30,
{
    let pm = rate_per_minute(count, elapsed_seconds);
    let ph = pm * 60;
    let pd = ph * 24;
    Rates { per_minute: pm, per_hour: ph, per_day: pd, per_month: pd * 30 }
}

/// The compact rendering of a runtime of `t` seconds: days, hours, minutes
/// and seconds, with zero-valued leading units suppressed and seconds always
/// shown.
pub open spec fn duration_chars(t: nat) -> Seq<char> {
    (if t / 86400 > 0 {
        dec_chars(t / 86400) + seq!['d', ' ']
    } else {
        Seq::<char>::empty()
    }) + (if (t / 3600) % 24 > 0 {
        dec2_chars((t / 3600) % 24) + seq!['h', ' ']
    } else {
        Seq::<char>::empty()
    }) + (if (t / 60) % 60 > 0 {
        dec2_chars((t / 60) % 60) + seq!['m', ' ']
    } else {
        Seq::<char>::empty()
    }) + dec2_chars(t % 60) + seq!['s']
}

/// Renders a runtime compactly, suppressing zero-valued leading units.
pub fn format_duration(runtime_seconds: u64) -> (s: String)
    ensures
        s@ == duration_chars(runtime_seconds as nat),
{
    let seconds = runtime_seconds % 60;
    let minutes = (runtime_seconds / 60) % 60;
    let hours = (runtime_seconds / 3600) % 24;
    let days = runtime_seconds / 86400;

    let mut s = String::new();
    if days > 0 {
        push_decimal(&mut s, days as u128);
        push_char(&mut s, 'd');
        push_char(&mut s, ' ');
    }
    if hours > 0 {
        push_decimal2(&mut s, hours as u128);
        push_char(&mut s, 'h');
        push_char(&mut s, ' ');
    }
    if minutes > 0 {
        push_decimal2(&mut s, minutes as u128);
        push_char(&mut s, 'm');
        push_char(&mut s, ' ');
    }
    push_decimal2(&mut s, seconds as u128);
    push_char(&mut s, 's');
    proof {
        assert(s@ =~= duration_chars(runtime_seconds as nat));
    }
    s
}

/// A byte count scaled by `unit`, rendered with two (truncated) fractional
/// digits.
pub open spec fn scaled_chars(n: nat, unit: nat) -> Seq<char>
    recommends
        unit > 0,
{
    dec_chars(n / unit) + seq!['.'] + dec2_chars((n % unit) * 100 / unit)
}

/// A byte count rendered with the largest binary unit it reaches, with two
/// fractional digits, or as plain bytes below one kibibyte.
pub open spec fn bytes_chars(n: nat) -> Seq<char> {
    if n >= TB {
        scaled_chars(n, TB as nat) + seq!['t', 'b']
    } else if n >= GB {
        scaled_chars(n, GB as nat) + seq!['g', 'b']
    } else if n >= MB {
        scaled_chars(n, MB as nat) + seq!['m', 'b']
    } else if n >= KB {
        scaled_chars(n, KB as nat) + seq!['k', 'b']
    } else {
        dec_chars(n) + seq!['b']
    }
}

/// Appends the scaled rendering of `n` with two fractional digits to `s`.
fn push_scaled(s: &mut String, n: u128, unit: u64)
    requires
        unit > 0,
    ensures
        final(s)@ == old(s)@ + scaled_chars(n as nat, unit as nat),
{
    let u = unit as u128;
    push_decimal(s, n / u);
    push_char(s, '.');
    proof {
        let ghost rem = n as nat % (u as nat);
        assert(rem * 100 / (u as nat) < 100) by (nonlinear_arith)
            requires
                0 < u as nat,
                rem < u as nat,
        ;
    }
    let frac = (n % u) * 100 / u;
    push_decimal2(s, frac);
}

/// Renders a byte count with the largest binary unit it reaches.
pub fn format_bytes_wide(bytes: u128) -> (s: String)
    ensures
        s@ == bytes_chars(bytes as nat),
{
    let mut s = String::new();
    if bytes >= TB as u128 {
        push_scaled(&mut s, bytes, TB);
        push_char(&mut s, 't');
        push_char(&mut s, 'b');
    } else if bytes >= GB as u128 {
        push_scaled(&mut s, bytes, GB);
        push_char(&mut s, 'g');
        push_char(&mut s, 'b');
    } else if bytes >= MB as u128 {
        push_scaled(&mut s, bytes, MB);
        push_char(&mut s, 'm');
        push_char(&mut s, 'b');
    } else if bytes >= KB as u128 {
        push_scaled(&mut s, bytes, KB);
        push_char(&mut s, 'k');
        push_char(&mut s, 'b');
    } else {
        push_decimal(&mut s, bytes);
        push_char(&mut s, 'b');
    }
    proof {
        assert(s@ =~= bytes_chars(bytes as nat));
    }
    s
}

/// Renders a byte count with the largest binary unit it reaches.
pub fn format_bytes(bytes: u64) -> (s: String)
    ensures
        s@ == bytes_chars(bytes as nat),
{
    format_bytes_wide(bytes as u128)
}

/// The status line of a run: uptime, the two counters, the extrapolated
/// per-minute rates, and the estimated on-disk growth per minute.
pub open spec fn status_line_chars(generated: nat, found: nat, elapsed: nat) -> Seq<char> {
    "| uptime "@ + duration_chars(elapsed) + " | generated "@ + grouped_chars(generated)
        + " | found "@ + grouped_chars(found) + " | avg/min "@ + grouped_chars(
        per_minute(generated, elapsed),
    ) + " | found/min "@ + grouped_chars(per_minute(found, elapsed)) + " | size/min "@
        + bytes_chars(per_minute(found, elapsed) * (BYTES_PER_RECORD as nat)) + " | "@
}

/// Renders the single overwritten status line of a run from the counters and
/// the elapsed runtime.
pub fn status_line(generated: u64, found: u64, elapsed_seconds: u64) -> (line: String)
    ensures
        line@ == status_line_chars(generated as nat, found as nat, elapsed_seconds as nat),
{
    let mut line = String::new();
    line.append("| uptime ");
    line.append(format_duration(elapsed_seconds).as_str());
    line.append(" | generated ");
    line.append(grouped_string(generated as u128).as_str());
    line.append(" | found ");
    line.append(grouped_string(found as u128).as_str());
    line.append(" | avg/min ");
    line.append(grouped_string(rate_per_minute(generated, elapsed_seconds)).as_str());
    line.append(" | found/min ");
    let found_pm = rate_per_minute(found, elapsed_seconds);
    line.append(grouped_string(found_pm).as_str());
    line.append(" | size/min ");
    line.append(format_bytes_wide(found_pm * BYTES_PER_RECORD as u128).as_str());
    line.append(" | ");
    proof {
        assert(line@ =~= status_line_chars(
            generated as nat,
            found as nat,
            elapsed_seconds as nat,
        ));
    }
    line
}

} // verus!
