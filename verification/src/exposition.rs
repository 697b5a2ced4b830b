//! The registry's report as text, in the exposition format that metric
//! scrapers read: for each metric a help line, a type line, and its samples.

use vstd::prelude::*;
use vstd::string::StringExecFns;
use crate::stats::Snapshot;
use crate::stats::ClientMetrics;

verus! {

/// The character for a decimal digit.
pub open spec fn digit(d: nat) -> char {
    if d == 0 {
        '0'
    } else if d == 1 {
        '1'
    } else if d == 2 {
        '2'
    } else if d == 3 {
        '3'
    } else if d == 4 {
        '4'
    } else if d == 5 {
        '5'
    } else if d == 6 {
        '6'
    } else if d == 7 {
        '7'
    } else if d == 8 {
        '8'
    } else {
        '9'
    }
}

/// The decimal numeral of `n`, without leading zeros.
pub open spec fn decimal(n: nat) -> Seq<char>
    decreases n,
{
    if n < 10 {
        seq![digit(n)]
    } else {
        decimal(n / 10).push(digit(n % 10))
    }
}

/// The help line and the type line of a metric.
pub open spec fn header(name: Seq<char>, kind: Seq<char>, help: Seq<char>) -> Seq<char> {
    "# HELP "@ + name + " "@ + help + "\n"@ + "# TYPE "@ + name + " "@ + kind + "\n"@
}

/// A metric with a single sample: its header, the sample, and an empty line.
pub open spec fn metric(name: Seq<char>, kind: Seq<char>, help: Seq<char>, value: nat) -> Seq<
    char,
> {
    header(name, kind, help) + name + " "@ + decimal(value) + "\n\n"@
}

/// The largest duration in seconds that line `line` of a cumulative
/// histogram stands for: one less than the power of two with that exponent.
pub open spec fn upper_bound(line: nat) -> nat
    decreases line,
{
    if line == 0 {
        0
    } else {
        2 * upper_bound((line - 1) as nat) + 1
    }
}

/// The label of line `line` of a cumulative histogram: its upper bound, and
/// on the last line the word for infinity.
pub open spec fn label(line: nat) -> Seq<char> {
    if line == 31 {
        "+Inf"@
    } else {
        decimal(upper_bound(line))
    }
}

/// One line of a cumulative histogram.
pub open spec fn bucket_line(name: Seq<char>, line: nat, count: nat) -> Seq<char> {
    name + "{le=\""@ + label(line) + "\"} "@ + decimal(count) + "\n"@
}

/// The first `lines` lines of the cumulative histogram of `metrics`.
pub open spec fn bucket_lines(name: Seq<char>, metrics: ClientMetrics, lines: nat) -> Seq<char>
    decreases lines,
{
    if lines == 0 {
        Seq::empty()
    } else {
        bucket_lines(name, metrics, (lines - 1) as nat) + bucket_line(
            name,
            (lines - 1) as nat,
            metrics.cumulative_spec(lines - 1) as nat,
        )
    }
}

/// The metrics of one set of connections. Their names begin with `prefix`;
/// `by` and `of` end the help texts and say whose connections they are.
pub open spec fn population(
    prefix: Seq<char>,
    by: Seq<char>,
    of: Seq<char>,
    metrics: ClientMetrics,
) -> Seq<char> {
    metric(
        prefix + "_maximum_connection_time_seconds"@,
        "counter"@,
        "Length in seconds of longest connection"@ + by,
        metrics.maximum_connection_time as nat,
    ) + metric(
        prefix + "_minimum_connection_time_seconds"@,
        "counter"@,
        "Length in seconds of shortest connection"@ + by,
        metrics.minimum_connection_time as nat,
    ) + metric(
        prefix + "_sent_chunks_sum"@,
        "counter"@,
        "Sum of sent chunks"@ + by,
        metrics.sent_chunks_sum as nat,
    ) + metric(
        prefix + "_sent_eastereggs_sum"@,
        "counter"@,
        "Sum of sent sent_eastereggs"@ + by,
        metrics.sent_eastereggs_sum as nat,
    ) + metric(
        prefix + "_sent_banners_sum"@,
        "counter"@,
        "Sum of sent banners"@ + by,
        metrics.sent_banners_sum as nat,
    ) + metric(
        prefix + "_connection_time_seconds_sum"@,
        "counter"@,
        "Sum of connection time"@ + of,
        metrics.connection_time as nat,
    ) + header(
        prefix + "_connection_time_seconds_bucket"@,
        "histogram"@,
        "A histogram of the connection time"@ + of,
    ) + bucket_lines(prefix + "_connection_time_seconds_bucket"@, metrics, 32)
}

/// The whole report: uptime and connection counts, then the metrics of the
/// live connections, of the former ones, and of both together.
pub open spec fn exposition(snapshot: Snapshot) -> Seq<char> {
    metric(
        "uptime_seconds"@,
        "gauge"@,
        "Number of seconds since startup."@,
        snapshot.uptime_seconds as nat,
    ) + metric(
        "connections_count"@,
        "counter"@,
        "Number of current connections."@,
        snapshot.connections_count as nat,
    ) + metric(
        "connections_total"@,
        "counter"@,
        "Total number of connections."@,
        snapshot.connections_total as nat,
    ) + population("client"@, " by current clients."@, " of current clients."@, snapshot.current)
        + "\n"@ + population(
        "former"@,
        " by former clients."@,
        " of former clients."@,
        snapshot.former,
    ) + "\n"@ + population("total"@, " overall."@, " overall."@, snapshot.total)
}

fn digit_text(d: u64) -> (text: &'static str)
    requires
        d < 10,
    ensures
        text@ == seq![digit(d as nat)],
{
    proof {
        reveal_strlit("0");
        reveal_strlit("1");
        reveal_strlit("2");
        reveal_strlit("3");
        reveal_strlit("4");
        reveal_strlit("5");
        reveal_strlit("6");
        reveal_strlit("7");
        reveal_strlit("8");
        reveal_strlit("9");
    }
    let text = if d == 0 {
        "0"
    } else if d == 1 {
        "1"
    } else if d == 2 {
        "2"
    } else if d == 3 {
        "3"
    } else if d == 4 {
        "4"
    } else if d == 5 {
        "5"
    } else if d == 6 {
        "6"
    } else if d == 7 {
        "7"
    } else if d == 8 {
        "8"
    } else {
        "9"
    };
    assert(text@ =~= seq![digit(d as nat)]);
    text
}

/// Appends the decimal numeral of `n` to `out`.
pub fn push_decimal(out: &mut String, n: u64)
    ensures
        final(out)@ == old(out)@ + decimal(n as nat),
    decreases n,
{
    if n >= 10 {
        push_decimal(out, n / 10);
    }
    out.append(digit_text(n % 10));
    assert(out@ =~= old(out)@ + decimal(n as nat));
}

fn push_header(out: &mut String, name: &str, kind: &str, help: &str, whose: &str)
    ensures
        final(out)@ == old(out)@ + header(name@, kind@, help@ + whose@),
{
    out.append("# HELP ");
    out.append(name);
    out.append(" ");
    out.append(help);
    out.append(whose);
    out.append("\n");
    out.append("# TYPE ");
    out.append(name);
    out.append(" ");
    out.append(kind);
    out.append("\n");
    assert(out@ =~= old(out)@ + header(name@, kind@, help@ + whose@));
}

fn push_metric(out: &mut String, name: &str, kind: &str, help: &str, whose: &str, value: u64)
    ensures
        final(out)@ == old(out)@ + metric(name@, kind@, help@ + whose@, value as nat),
{
    push_header(out, name, kind, help, whose);
    out.append(name);
    out.append(" ");
    push_decimal(out, value);
    out.append("\n\n");
    assert(out@ =~= old(out)@ + metric(name@, kind@, help@ + whose@, value as nat));
}

fn push_bucket_lines(out: &mut String, name: &str, metrics: &ClientMetrics)
    ensures
        final(out)@ == old(out)@ + bucket_lines(name@, *metrics, 32),
{
    let counts = metrics.cumulative();
    let mut bound: u64 = 0;
    let mut line: usize = 0;
    assert(out@ =~= old(out)@ + bucket_lines(name@, *metrics, 0));
    while line < 32
        invariant
            line <= 32,
            line < 32 ==> bound == upper_bound(line as nat),
            bound < 0x1_0000_0000,
            forall|k: int| 0 <= k < 32 ==> counts[k] == metrics.cumulative_spec(k),
            out@ == old(out)@ + bucket_lines(name@, *metrics, line as nat),
        decreases 32 - line,
    {
        let ghost before = out@;
        out.append(name);
        out.append("{le=\"");
        if line == 31 {
            out.append("+Inf");
        } else {
            push_decimal(out, bound);
        }
        out.append("\"} ");
        push_decimal(out, counts[line] as u64);
        out.append("\n");
        assert(out@ =~= before + bucket_line(
            name@,
            line as nat,
            metrics.cumulative_spec(line as int) as nat,
        ));
        if line < 31 {
            proof {
                lemma_upper_bound_grows(line as nat);
            }
            bound = 2 * bound + 1;
        }
        line = line + 1;
        assert(out@ =~= old(out)@ + bucket_lines(name@, *metrics, line as nat));
    }
}

fn joined(prefix: &str, rest: &str) -> (name: String)
    ensures
        name@ == prefix@ + rest@,
{
    let mut name = String::from_str(prefix);
    name.append(rest);
    name
}

fn push_population(out: &mut String, prefix: &str, by: &str, of: &str, metrics: &ClientMetrics)
    ensures
        final(out)@ == old(out)@ + population(prefix@, by@, of@, *metrics),
{
    let name = joined(prefix, "_maximum_connection_time_seconds");
    push_metric(
        out,
        name.as_str(),
        "counter",
        "Length in seconds of longest connection",
        by,
        metrics.maximum_connection_time,
    );
    let name = joined(prefix, "_minimum_connection_time_seconds");
    push_metric(
        out,
        name.as_str(),
        "counter",
        "Length in seconds of shortest connection",
        by,
        metrics.minimum_connection_time,
    );
    let name = joined(prefix, "_sent_chunks_sum");
    push_metric(out, name.as_str(), "counter", "Sum of sent chunks", by, metrics.sent_chunks_sum);
    let name = joined(prefix, "_sent_eastereggs_sum");
    push_metric(
        out,
        name.as_str(),
        "counter",
        "Sum of sent sent_eastereggs",
        by,
        metrics.sent_eastereggs_sum,
    );
    let name = joined(prefix, "_sent_banners_sum");
    push_metric(out, name.as_str(), "counter", "Sum of sent banners", by, metrics.sent_banners_sum);
    let name = joined(prefix, "_connection_time_seconds_sum");
    push_metric(
        out,
        name.as_str(),
        "counter",
        "Sum of connection time",
        of,
        metrics.connection_time,
    );
    let name = joined(prefix, "_connection_time_seconds_bucket");
    push_header(out, name.as_str(), "histogram", "A histogram of the connection time", of);
    push_bucket_lines(out, name.as_str(), metrics);
    assert(out@ =~= old(out)@ + population(prefix@, by@, of@, *metrics));
}

/// The report `snapshot` as text.
pub fn render(snapshot: &Snapshot) -> (text: String)
    ensures
        text@ == exposition(*snapshot),
{
    let mut out = String::new();
    push_metric(
        &mut out,
        "uptime_seconds",
        "gauge",
        "Number of seconds since startup.",
        "",
        snapshot.uptime_seconds,
    );
    push_metric(
        &mut out,
        "connections_count",
        "counter",
        "Number of current connections.",
        "",
        snapshot.connections_count as u64,
    );
    push_metric(
        &mut out,
        "connections_total",
        "counter",
        "Total number of connections.",
        "",
        snapshot.connections_total as u64,
    );
    push_population(
        &mut out,
        "client",
        " by current clients.",
        " of current clients.",
        &snapshot.current,
    );
    out.append("\n");
    push_population(
        &mut out,
        "former",
        " by former clients.",
        " of former clients.",
        &snapshot.former,
    );
    out.append("\n");
    push_population(&mut out, "total", " overall.", " overall.", &snapshot.total);
    proof {
        reveal_strlit("");
        assert("Number of seconds since startup."@ + ""@ =~= "Number of seconds since startup."@);
        assert("Number of current connections."@ + ""@ =~= "Number of current connections."@);
        assert("Total number of connections."@ + ""@ =~= "Total number of connections."@);
        assert(out@ =~= exposition(*snapshot));
    }
    out
}

/// The upper bounds double from line to line and stay below `2^32` on the
/// lines of a histogram.
proof fn lemma_upper_bound_grows(line: nat)
    requires
        line < 31,
    ensures
        upper_bound(line + 1) == 2 * upper_bound(line) + 1,
        upper_bound(line + 1) < 0x1_0000_0000,
{
    lemma_upper_bound_limit(line + 1);
}

proof fn lemma_upper_bound_limit(line: nat)
    requires
        line <= 31,
    ensures
        upper_bound(line) + 1 == vstd::arithmetic::power2::pow2(line),
        upper_bound(line) < 0x1_0000_0000,
    decreases line,
{
    vstd::arithmetic::power2::lemma2_to64();
    if line > 0 {
        lemma_upper_bound_limit((line - 1) as nat);
        vstd::arithmetic::power2::lemma_pow2_unfold(line);
    }
    lemma_pow2_below(line);
}

proof fn lemma_pow2_below(line: nat)
    requires
        line <= 31,
    ensures
        vstd::arithmetic::power2::pow2(line) <= 0x8000_0000,
    decreases 31 - line,
{
    vstd::arithmetic::power2::lemma2_to64();
    if line < 31 {
        lemma_pow2_below(line + 1);
        vstd::arithmetic::power2::lemma_pow2_unfold(line + 1);
    }
}

} // verus!
