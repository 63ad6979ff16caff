//! The traffic figures in the Prometheus text format.
use vstd::prelude::*;

use crate::text::{decimal, push_decimal};
use crate::traffic::{saturating_usize_to_u64, TrafficSnapshot};

verus! {

/// The content type of the text.
pub const PROMETHEUS_CONTENT_TYPE: &'static str = "text/plain; version=0.0.4; charset=utf-8";

/// How a character stands inside the quotes of a label.
pub open spec fn escaped_char(ch: char) -> Seq<char> {
    if ch == '\\' {
        seq!['\\', '\\']
    } else if ch == '"' {
        seq!['\\', '"']
    } else if ch == '\n' {
        seq!['\\', 'n']
    } else {
        seq![ch]
    }
}

/// How a text stands inside the quotes of a label.
pub open spec fn escaped(value: Seq<char>) -> Seq<char>
    decreases value.len(),
{
    if value.len() == 0 {
        Seq::empty()
    } else {
        escaped_char(value[0]) + escaped(value.drop_first())
    }
}

proof fn escaped_push(value: Seq<char>, ch: char)
    ensures
        escaped(value.push(ch)) == escaped(value) + escaped_char(ch),
    decreases value.len(),
{
    if value.len() == 0 {
        reveal_with_fuel(escaped, 2);
        assert(value.push(ch).drop_first() =~= Seq::empty());
        assert(escaped(value.push(ch)) =~= escaped_char(ch));
        assert(escaped(value) + escaped_char(ch) =~= escaped_char(ch));
    } else {
        escaped_push(value.drop_first(), ch);
        assert(value.push(ch).drop_first() =~= value.drop_first().push(ch));
        assert(escaped(value.push(ch)) =~= escaped(value) + escaped_char(ch));
    }
}

/// The two comment lines that introduce a metric.
pub open spec fn metric_header(name: Seq<char>, help: Seq<char>, kind: Seq<char>) -> Seq<char> {
    "# HELP "@ + name + " "@ + help + "\n"@ + "# TYPE "@ + name + " "@ + kind + "\n"@
}

/// A metric with one value.
#[verifier::opaque]
pub open spec fn metric_text(
    name: Seq<char>,
    help: Seq<char>,
    kind: Seq<char>,
    value: u64,
) -> Seq<char> {
    metric_header(name, help, kind) + name + " "@ + decimal(value as nat) + "\n"@
}

/// The line of one traffic direction.
pub open spec fn direction_line(name: Seq<char>, direction: Seq<char>, value: u64) -> Seq<char> {
    name + "{direction=\""@ + escaped(direction) + "\"} "@ + decimal(value as nat) + "\n"@
}

/// A metric with a value for each of four traffic directions.
#[verifier::opaque]
pub open spec fn family_text(
    name: Seq<char>,
    help: Seq<char>,
    kind: Seq<char>,
    samples: Seq<(&str, u64)>,
) -> Seq<char> {
    metric_header(name, help, kind) + direction_line(name, samples[0].0@, samples[0].1)
        + direction_line(name, samples[1].0@, samples[1].1) + direction_line(
        name,
        samples[2].0@,
        samples[2].1,
    ) + direction_line(name, samples[3].0@, samples[3].1)
}

/// The four directions with a value for each.
pub open spec fn by_direction(
    websocket_rx: u64,
    websocket_tx: u64,
    tap_rx: u64,
    tap_tx: u64,
) -> Seq<(&'static str, u64)> {
    seq![
        ("websocket_rx", websocket_rx),
        ("websocket_tx", websocket_tx),
        ("tap_rx", tap_rx),
        ("tap_tx", tap_tx),
    ]
}

/// The whole text: four single metrics, then five with a value for each direction.
pub open spec fn prometheus_text(s: TrafficSnapshot) -> Seq<char> {
    metric_text(
        "websockproxy_uptime_seconds"@,
        "Process uptime in seconds."@,
        "gauge"@,
        s.uptime_seconds,
    ) + metric_text(
        "websockproxy_recent_window_seconds"@,
        "Recent sampling window in seconds."@,
        "gauge"@,
        s.recent_window_seconds,
    ) + metric_text(
        "websockproxy_connected_clients"@,
        "Connected websocket clients."@,
        "gauge"@,
        s.connected_clients as u64,
    ) + metric_text(
        "websockproxy_current_bytes_per_second"@,
        "Recent aggregate traffic rate in bytes per second."@,
        "gauge"@,
        s.current_bps,
    ) + family_text(
        "websockproxy_traffic_direction_frames_total"@,
        "Total frames observed per traffic direction."@,
        "counter"@,
        by_direction(
            s.websocket_rx.frames,
            s.websocket_tx.frames,
            s.tap_rx.frames,
            s.tap_tx.frames,
        ),
    ) + family_text(
        "websockproxy_traffic_direction_bytes_total"@,
        "Total bytes observed per traffic direction."@,
        "counter"@,
        by_direction(s.websocket_rx.bytes, s.websocket_tx.bytes, s.tap_rx.bytes, s.tap_tx.bytes),
    ) + family_text(
        "websockproxy_traffic_direction_recent_frames"@,
        "Frames observed per traffic direction over the recent window."@,
        "gauge"@,
        by_direction(
            s.websocket_rx.recent_frames,
            s.websocket_tx.recent_frames,
            s.tap_rx.recent_frames,
            s.tap_tx.recent_frames,
        ),
    ) + family_text(
        "websockproxy_traffic_direction_recent_bytes"@,
        "Bytes observed per traffic direction over the recent window."@,
        "gauge"@,
        by_direction(
            s.websocket_rx.recent_bytes,
            s.websocket_tx.recent_bytes,
            s.tap_rx.recent_bytes,
            s.tap_tx.recent_bytes,
        ),
    ) + family_text(
        "websockproxy_traffic_direction_recent_bytes_per_second"@,
        "Recent bytes per second observed per traffic direction."@,
        "gauge"@,
        by_direction(
            s.websocket_rx.recent_bps,
            s.websocket_tx.recent_bps,
            s.tap_rx.recent_bps,
            s.tap_tx.recent_bps,
        ),
    )
}

/// Escapes a text for the quotes of a label.
pub fn escape_prometheus_label_value(value: &str) -> (r: String)
    ensures
        r@ == escaped(value@),
{
    let mut output = String::new();
    for ch in iter: value.chars()
        invariant
            iter.seq() == value@,
            output@ == escaped(value@.take(iter.index() as int)),
    {
        proof {
            let k = iter.index() as int;
            escaped_push(value@.take(k), ch);
            assert(value@.take(k + 1) =~= value@.take(k).push(ch));
        }
        match ch {
            '\\' => {
                output.push('\\');
                output.push('\\');
            },
            '"' => {
                output.push('\\');
                output.push('"');
            },
            '\n' => {
                output.push('\\');
                output.push('n');
            },
            _ => {
                output.push(ch);
            },
        }
        assert(output@ =~= escaped(value@.take(iter.index() + 1)));
    }
    assert(value@.take(value@.len() as int) =~= value@);
    output
}

/// Appends the comment lines that introduce a metric.
fn write_header(output: &mut String, name: &str, help: &str, kind: &str)
    ensures
        final(output)@ == old(output)@ + metric_header(name@, help@, kind@),
{
    output.append("# HELP ");
    output.append(name);
    output.append(" ");
    output.append(help);
    output.append("\n");
    output.append("# TYPE ");
    output.append(name);
    output.append(" ");
    output.append(kind);
    output.append("\n");
    assert(output@ =~= old(output)@ + metric_header(name@, help@, kind@));
}

/// Appends a metric with one value.
pub fn write_metric(output: &mut String, name: &str, help: &str, kind: &str, value: u64)
    ensures
        final(output)@ == old(output)@ + metric_text(name@, help@, kind@, value),
{
    write_header(output, name, help, kind);
    output.append(name);
    output.append(" ");
    push_decimal(output, value);
    output.append("\n");
    reveal(metric_text);
    assert(output@ =~= old(output)@ + metric_text(name@, help@, kind@, value));
}

fn write_direction_line(output: &mut String, name: &str, direction: &str, value: u64)
    ensures
        final(output)@ == old(output)@ + direction_line(name@, direction@, value),
{
    output.append(name);
    output.append("{direction=\"");
    output.append(escape_prometheus_label_value(direction).as_str());
    output.append("\"} ");
    push_decimal(output, value);
    output.append("\n");
    assert(output@ =~= old(output)@ + direction_line(name@, direction@, value));
}

/// Appends a metric with a value for each of four directions.
pub fn write_direction_metric_family(
    output: &mut String,
    name: &str,
    help: &str,
    kind: &str,
    samples: [(&str, u64); 4],
)
    ensures
        final(output)@ == old(output)@ + family_text(name@, help@, kind@, samples@),
{
    write_header(output, name, help, kind);
    write_direction_line(output, name, samples[0].0, samples[0].1);
    write_direction_line(output, name, samples[1].0, samples[1].1);
    write_direction_line(output, name, samples[2].0, samples[2].1);
    write_direction_line(output, name, samples[3].0, samples[3].1);
    reveal(family_text);
    assert(output@ =~= old(output)@ + family_text(name@, help@, kind@, samples@));
}

/// The figures as Prometheus text.
pub fn format_traffic_prometheus(snapshot: &TrafficSnapshot) -> (r: String)
    ensures
        r@ == prometheus_text(*snapshot),
{
    let mut output = String::new();
    write_metric(
        &mut output,
        "websockproxy_uptime_seconds",
        "Process uptime in seconds.",
        "gauge",
        snapshot.uptime_seconds,
    );
    assert(output@ =~= metric_text(
        "websockproxy_uptime_seconds"@,
        "Process uptime in seconds."@,
        "gauge"@,
        snapshot.uptime_seconds,
    ));
    write_metric(
        &mut output,
        "websockproxy_recent_window_seconds",
        "Recent sampling window in seconds.",
        "gauge",
        snapshot.recent_window_seconds,
    );
    write_metric(
        &mut output,
        "websockproxy_connected_clients",
        "Connected websocket clients.",
        "gauge",
        saturating_usize_to_u64(snapshot.connected_clients),
    );
    write_metric(
        &mut output,
        "websockproxy_current_bytes_per_second",
        "Recent aggregate traffic rate in bytes per second.",
        "gauge",
        snapshot.current_bps,
    );
    write_four_directions(
        &mut output,
        "websockproxy_traffic_direction_frames_total",
        "Total frames observed per traffic direction.",
        "counter",
        [
            snapshot.websocket_rx.frames,
            snapshot.websocket_tx.frames,
            snapshot.tap_rx.frames,
            snapshot.tap_tx.frames,
        ],
    );
    write_four_directions(
        &mut output,
        "websockproxy_traffic_direction_bytes_total",
        "Total bytes observed per traffic direction.",
        "counter",
        [
            snapshot.websocket_rx.bytes,
            snapshot.websocket_tx.bytes,
            snapshot.tap_rx.bytes,
            snapshot.tap_tx.bytes,
        ],
    );
    write_four_directions(
        &mut output,
        "websockproxy_traffic_direction_recent_frames",
        "Frames observed per traffic direction over the recent window.",
        "gauge",
        [
            snapshot.websocket_rx.recent_frames,
            snapshot.websocket_tx.recent_frames,
            snapshot.tap_rx.recent_frames,
            snapshot.tap_tx.recent_frames,
        ],
    );
    write_four_directions(
        &mut output,
        "websockproxy_traffic_direction_recent_bytes",
        "Bytes observed per traffic direction over the recent window.",
        "gauge",
        [
            snapshot.websocket_rx.recent_bytes,
            snapshot.websocket_tx.recent_bytes,
            snapshot.tap_rx.recent_bytes,
            snapshot.tap_tx.recent_bytes,
        ],
    );
    write_four_directions(
        &mut output,
        "websockproxy_traffic_direction_recent_bytes_per_second",
        "Recent bytes per second observed per traffic direction.",
        "gauge",
        [
            snapshot.websocket_rx.recent_bps,
            snapshot.websocket_tx.recent_bps,
            snapshot.tap_rx.recent_bps,
            snapshot.tap_tx.recent_bps,
        ],
    );
    output
}

/// Appends a metric with the values of the four directions in which frames travel.
fn write_four_directions(
    output: &mut String,
    name: &str,
    help: &str,
    kind: &str,
    values: [u64; 4],
)
    ensures
        final(output)@ == old(output)@ + family_text(
            name@,
            help@,
            kind@,
            by_direction(values@[0], values@[1], values@[2], values@[3]),
        ),
{
    let samples = [
        ("websocket_rx", values[0]),
        ("websocket_tx", values[1]),
        ("tap_rx", values[2]),
        ("tap_tx", values[3]),
    ];
    assert(samples@ =~= by_direction(values@[0], values@[1], values@[2], values@[3]));
    write_direction_metric_family(output, name, help, kind, samples);
}

/// Two texts that are escaped to the same text are the same.
pub proof fn escaping_is_injective(a: Seq<char>, b: Seq<char>)
    requires
        escaped(a) == escaped(b),
    ensures
        a == b,
    decreases a.len(),
{
    if a.len() == 0 || b.len() == 0 {
        if a.len() > 0 {
            assert(escaped(a)[0] == escaped_char(a[0])[0]);
        }
        if b.len() > 0 {
            assert(escaped(b)[0] == escaped_char(b[0])[0]);
        }
        assert(a =~= b);
    } else {
        let ea = escaped_char(a[0]);
        let eb = escaped_char(b[0]);
        assert(escaped(a)[0] == ea[0]);
        assert(escaped(b)[0] == eb[0]);
        if ea.len() == 2 {
            assert(escaped(a)[1] == ea[1]);
        }
        if eb.len() == 2 {
            assert(escaped(b)[1] == eb[1]);
        }
        assert(a[0] == b[0]);
        let n = ea.len() as int;
        assert(escaped(a).skip(n) =~= escaped(a.drop_first()));
        assert(escaped(b).skip(n) =~= escaped(b.drop_first()));
        escaping_is_injective(a.drop_first(), b.drop_first());
        assert(a =~= seq![a[0]] + a.drop_first());
        assert(b =~= seq![b[0]] + b.drop_first());
    }
}

/// An escaped text holds no line break, and every quotation mark in it follows a backslash.
pub proof fn escaped_text_stays_inside_its_quotes(value: Seq<char>)
    ensures
        forall|i: int|
            0 <= i < escaped(value).len() ==> {
                &&& #[trigger] escaped(value)[i] != '\n'
                &&& escaped(value)[i] == '"' ==> i > 0 && escaped(value)[i - 1] == '\\'
            },
    decreases value.len(),
{
    if value.len() > 0 {
        let rest = value.drop_first();
        let head = escaped_char(value[0]);
        escaped_text_stays_inside_its_quotes(rest);
        assert forall|i: int| 0 <= i < escaped(value).len() implies {
            &&& #[trigger] escaped(value)[i] != '\n'
            &&& escaped(value)[i] == '"' ==> i > 0 && escaped(value)[i - 1] == '\\'
        } by {
            if i < head.len() {
                assert(escaped(value)[i] == head[i]);
                if i > 0 {
                    assert(escaped(value)[i - 1] == head[i - 1]);
                }
            } else {
                let j = i - head.len();
                assert(escaped(value)[i] == escaped(rest)[j]);
                if j > 0 {
                    assert(escaped(value)[i - 1] == escaped(rest)[j - 1]);
                }
            }
        }
    }
}

/// The text ends with a line break.
pub proof fn text_ends_with_a_line_break(s: TrafficSnapshot)
    ensures
        prometheus_text(s).len() > 0,
        prometheus_text(s).last() == '\n',
{
    reveal_strlit("\n");
    reveal(family_text);
    let last = family_text(
        "websockproxy_traffic_direction_recent_bytes_per_second"@,
        "Recent bytes per second observed per traffic direction."@,
        "gauge"@,
        by_direction(
            s.websocket_rx.recent_bps,
            s.websocket_tx.recent_bps,
            s.tap_rx.recent_bps,
            s.tap_tx.recent_bps,
        ),
    );
    assert(last.len() > 0 && last.last() == '\n');
}

/// The text that an escaped text stands for: a backslash is dropped, and an `n` behind it is a
/// line break.
pub open spec fn unescaped(text: Seq<char>) -> Seq<char>
    decreases text.len(),
{
    if text.len() == 0 {
        Seq::empty()
    } else if text[0] == '\\' && text.len() >= 2 {
        seq![
            if text[1] == 'n' {
                '\n'
            } else {
                text[1]
            },
        ] + unescaped(text.skip(2))
    } else {
        seq![text[0]] + unescaped(text.drop_first())
    }
}

/// Reading an escaped text gives back the text.
pub proof fn escaping_is_undone_by_reading(value: Seq<char>)
    ensures
        unescaped(escaped(value)) == value,
    decreases value.len(),
{
    if value.len() > 0 {
        let rest = value.drop_first();
        let head = escaped_char(value[0]);
        let all = escaped(value);
        escaping_is_undone_by_reading(rest);
        assert(all[0] == head[0]);
        if head.len() == 2 {
            assert(all[1] == head[1]);
            assert(all.skip(2) =~= escaped(rest));
        } else {
            assert(all.drop_first() =~= escaped(rest));
        }
        assert(unescaped(all) =~= value);
    }
}

/// A text without backslashes, quotation marks and line breaks stands as it is.
pub proof fn plain_text_is_not_escaped(value: Seq<char>)
    requires
        forall|i: int|
            0 <= i < value.len() ==> #[trigger] value[i] != '\\' && value[i] != '"' && value[i]
                != '\n',
    ensures
        escaped(value) == value,
    decreases value.len(),
{
    if value.len() > 0 {
        plain_text_is_not_escaped(value.drop_first());
        assert(escaped(value) =~= value);
    }
}

/// Some lines, each with a line break behind it.
pub open spec fn page_of(lines: Seq<Seq<char>>) -> Seq<char>
    decreases lines.len(),
{
    if lines.len() == 0 {
        Seq::empty()
    } else {
        page_of(lines.drop_last()) + lines.last() + "\n"@
    }
}

proof fn page_of_both(a: Seq<Seq<char>>, b: Seq<Seq<char>>)
    ensures
        page_of(a + b) == page_of(a) + page_of(b),
    decreases b.len(),
{
    if b.len() == 0 {
        assert(a + b =~= a);
        assert(page_of(a + b) =~= page_of(a) + page_of(b));
    } else {
        page_of_both(a, b.drop_last());
        assert((a + b).drop_last() =~= a + b.drop_last());
        assert((a + b).last() == b.last());
        assert(page_of(a + b) =~= page_of(a) + page_of(b));
    }
}

/// The three lines that a metric with one value has.
pub open spec fn single_lines(
    name: Seq<char>,
    help: Seq<char>,
    kind: Seq<char>,
    value: u64,
) -> Seq<Seq<char>> {
    seq![
        "# HELP "@ + name + " "@ + help,
        "# TYPE "@ + name + " "@ + kind,
        name + " "@ + decimal(value as nat),
    ]
}

/// The six lines that a metric with a value for each direction has.
pub open spec fn direction_lines(
    name: Seq<char>,
    help: Seq<char>,
    kind: Seq<char>,
    websocket_rx: u64,
    websocket_tx: u64,
    tap_rx: u64,
    tap_tx: u64,
) -> Seq<Seq<char>> {
    seq![
        "# HELP "@ + name + " "@ + help,
        "# TYPE "@ + name + " "@ + kind,
        name + "{direction=\""@ + "websocket_rx"@ + "\"} "@ + decimal(websocket_rx as nat),
        name + "{direction=\""@ + "websocket_tx"@ + "\"} "@ + decimal(websocket_tx as nat),
        name + "{direction=\""@ + "tap_rx"@ + "\"} "@ + decimal(tap_rx as nat),
        name + "{direction=\""@ + "tap_tx"@ + "\"} "@ + decimal(tap_tx as nat),
    ]
}

/// A metric with one value is its three lines, whatever it is called.
pub proof fn a_single_metric_has_three_lines(
    name: Seq<char>,
    help: Seq<char>,
    kind: Seq<char>,
    value: u64,
)
    ensures
        metric_text(name, help, kind, value) == page_of(single_lines(name, help, kind, value)),
{
    reveal(metric_text);
    let lines = single_lines(name, help, kind, value);
    let two = lines.drop_last();
    let one = two.drop_last();
    assert(one.drop_last() =~= Seq::empty());
    assert(page_of(one.drop_last()) =~= Seq::empty());
    assert(page_of(one) =~= lines[0] + "\n"@);
    assert(page_of(two) =~= lines[0] + "\n"@ + lines[1] + "\n"@);
    assert(page_of(lines) =~= metric_text(name, help, kind, value));
}

/// A metric with a value for each direction is its six lines, in the order of the directions,
/// whatever it is called.
#[verifier::spinoff_prover]
pub proof fn a_metric_by_direction_has_six_lines(
    name: Seq<char>,
    help: Seq<char>,
    kind: Seq<char>,
    websocket_rx: u64,
    websocket_tx: u64,
    tap_rx: u64,
    tap_tx: u64,
)
    ensures
        family_text(name, help, kind, by_direction(websocket_rx, websocket_tx, tap_rx, tap_tx))
            == page_of(
            direction_lines(name, help, kind, websocket_rx, websocket_tx, tap_rx, tap_tx),
        ),
{
    reveal(family_text);
    reveal_strlit("websocket_rx");
    reveal_strlit("websocket_tx");
    reveal_strlit("tap_rx");
    reveal_strlit("tap_tx");
    plain_text_is_not_escaped("websocket_rx"@);
    plain_text_is_not_escaped("websocket_tx"@);
    plain_text_is_not_escaped("tap_rx"@);
    plain_text_is_not_escaped("tap_tx"@);
    let lines = direction_lines(name, help, kind, websocket_rx, websocket_tx, tap_rx, tap_tx);
    let text = family_text(
        name,
        help,
        kind,
        by_direction(websocket_rx, websocket_tx, tap_rx, tap_tx),
    );
    let n = "\n"@;
    let l5 = lines.drop_last();
    let l4 = l5.drop_last();
    let l3 = l4.drop_last();
    let l2 = l3.drop_last();
    let l1 = l2.drop_last();
    assert(l1.drop_last() =~= Seq::empty());
    assert(page_of(l1.drop_last()) =~= Seq::empty());
    assert(page_of(l1) =~= lines[0] + n);
    assert(page_of(l2) =~= metric_header(name, help, kind));
    assert(page_of(l3) =~= metric_header(name, help, kind) + direction_line(
        name,
        "websocket_rx"@,
        websocket_rx,
    ));
    assert(page_of(l4) =~= page_of(l3) + direction_line(name, "websocket_tx"@, websocket_tx));
    assert(page_of(l5) =~= page_of(l4) + direction_line(name, "tap_rx"@, tap_rx));
    assert(page_of(lines) =~= page_of(l5) + direction_line(name, "tap_tx"@, tap_tx));
    assert(page_of(lines) =~= text);
}

/// The page has these lines and no others: every figure stands behind its own name, and behind its
/// own direction where it has one.
#[verifier::spinoff_prover]
pub proof fn the_page_shows_every_figure_under_its_name(s: TrafficSnapshot)
    ensures
        prometheus_text(s) == page_of(
            single_lines(
                "websockproxy_uptime_seconds"@,
                "Process uptime in seconds."@,
                "gauge"@,
                s.uptime_seconds,
            ) + single_lines(
                "websockproxy_recent_window_seconds"@,
                "Recent sampling window in seconds."@,
                "gauge"@,
                s.recent_window_seconds,
            ) + single_lines(
                "websockproxy_connected_clients"@,
                "Connected websocket clients."@,
                "gauge"@,
                s.connected_clients as u64,
            ) + single_lines(
                "websockproxy_current_bytes_per_second"@,
                "Recent aggregate traffic rate in bytes per second."@,
                "gauge"@,
                s.current_bps,
            ) + direction_lines(
                "websockproxy_traffic_direction_frames_total"@,
                "Total frames observed per traffic direction."@,
                "counter"@,
                s.websocket_rx.frames,
                s.websocket_tx.frames,
                s.tap_rx.frames,
                s.tap_tx.frames,
            ) + direction_lines(
                "websockproxy_traffic_direction_bytes_total"@,
                "Total bytes observed per traffic direction."@,
                "counter"@,
                s.websocket_rx.bytes,
                s.websocket_tx.bytes,
                s.tap_rx.bytes,
                s.tap_tx.bytes,
            ) + direction_lines(
                "websockproxy_traffic_direction_recent_frames"@,
                "Frames observed per traffic direction over the recent window."@,
                "gauge"@,
                s.websocket_rx.recent_frames,
                s.websocket_tx.recent_frames,
                s.tap_rx.recent_frames,
                s.tap_tx.recent_frames,
            ) + direction_lines(
                "websockproxy_traffic_direction_recent_bytes"@,
                "Bytes observed per traffic direction over the recent window."@,
                "gauge"@,
                s.websocket_rx.recent_bytes,
                s.websocket_tx.recent_bytes,
                s.tap_rx.recent_bytes,
                s.tap_tx.recent_bytes,
            ) + direction_lines(
                "websockproxy_traffic_direction_recent_bytes_per_second"@,
                "Recent bytes per second observed per traffic direction."@,
                "gauge"@,
                s.websocket_rx.recent_bps,
                s.websocket_tx.recent_bps,
                s.tap_rx.recent_bps,
                s.tap_tx.recent_bps,
            ),
        ),
{
    let gauge = "gauge"@;
    let counter = "counter"@;
    let (n1, h1) = ("websockproxy_uptime_seconds"@, "Process uptime in seconds."@);
    let (n2, h2) = ("websockproxy_recent_window_seconds"@, "Recent sampling window in seconds."@);
    let (n3, h3) = ("websockproxy_connected_clients"@, "Connected websocket clients."@);
    let (n4, h4) = (
        "websockproxy_current_bytes_per_second"@,
        "Recent aggregate traffic rate in bytes per second."@,
    );
    let (n5, h5) = (
        "websockproxy_traffic_direction_frames_total"@,
        "Total frames observed per traffic direction."@,
    );
    let (n6, h6) = (
        "websockproxy_traffic_direction_bytes_total"@,
        "Total bytes observed per traffic direction."@,
    );
    let (n7, h7) = (
        "websockproxy_traffic_direction_recent_frames"@,
        "Frames observed per traffic direction over the recent window."@,
    );
    let (n8, h8) = (
        "websockproxy_traffic_direction_recent_bytes"@,
        "Bytes observed per traffic direction over the recent window."@,
    );
    let (n9, h9) = (
        "websockproxy_traffic_direction_recent_bytes_per_second"@,
        "Recent bytes per second observed per traffic direction."@,
    );
    let (rx, tx, trx, ttx) = (s.websocket_rx, s.websocket_tx, s.tap_rx, s.tap_tx);
    let p1 = single_lines(n1, h1, gauge, s.uptime_seconds);
    let p2 = single_lines(n2, h2, gauge, s.recent_window_seconds);
    let p3 = single_lines(n3, h3, gauge, s.connected_clients as u64);
    let p4 = single_lines(n4, h4, gauge, s.current_bps);
    let p5 = direction_lines(n5, h5, counter, rx.frames, tx.frames, trx.frames, ttx.frames);
    let p6 = direction_lines(n6, h6, counter, rx.bytes, tx.bytes, trx.bytes, ttx.bytes);
    let p7 = direction_lines(
        n7,
        h7,
        gauge,
        rx.recent_frames,
        tx.recent_frames,
        trx.recent_frames,
        ttx.recent_frames,
    );
    let p8 = direction_lines(
        n8,
        h8,
        gauge,
        rx.recent_bytes,
        tx.recent_bytes,
        trx.recent_bytes,
        ttx.recent_bytes,
    );
    let p9 = direction_lines(
        n9,
        h9,
        gauge,
        rx.recent_bps,
        tx.recent_bps,
        trx.recent_bps,
        ttx.recent_bps,
    );
    a_single_metric_has_three_lines(n1, h1, gauge, s.uptime_seconds);
    a_single_metric_has_three_lines(n2, h2, gauge, s.recent_window_seconds);
    a_single_metric_has_three_lines(n3, h3, gauge, s.connected_clients as u64);
    a_single_metric_has_three_lines(n4, h4, gauge, s.current_bps);
    a_metric_by_direction_has_six_lines(
        n5,
        h5,
        counter,
        rx.frames,
        tx.frames,
        trx.frames,
        ttx.frames,
    );
    a_metric_by_direction_has_six_lines(n6, h6, counter, rx.bytes, tx.bytes, trx.bytes, ttx.bytes);
    a_metric_by_direction_has_six_lines(
        n7,
        h7,
        gauge,
        rx.recent_frames,
        tx.recent_frames,
        trx.recent_frames,
        ttx.recent_frames,
    );
    a_metric_by_direction_has_six_lines(
        n8,
        h8,
        gauge,
        rx.recent_bytes,
        tx.recent_bytes,
        trx.recent_bytes,
        ttx.recent_bytes,
    );
    a_metric_by_direction_has_six_lines(
        n9,
        h9,
        gauge,
        rx.recent_bps,
        tx.recent_bps,
        trx.recent_bps,
        ttx.recent_bps,
    );
    page_of_both(p1, p2);
    page_of_both(p1 + p2, p3);
    page_of_both(p1 + p2 + p3, p4);
    page_of_both(p1 + p2 + p3 + p4, p5);
    page_of_both(p1 + p2 + p3 + p4 + p5, p6);
    page_of_both(p1 + p2 + p3 + p4 + p5 + p6, p7);
    page_of_both(p1 + p2 + p3 + p4 + p5 + p6 + p7, p8);
    page_of_both(p1 + p2 + p3 + p4 + p5 + p6 + p7 + p8, p9);
}

} // verus!
