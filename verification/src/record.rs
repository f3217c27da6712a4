//! Composition of wire records: one newline-terminated line per value of
//! a sample batch, led by the batch's hierarchical metric identifier.

use vstd::prelude::*;
use crate::sanitize::sanitized;
use crate::sanitize::push_sanitized;
use crate::sanitize::chars_to_string;
use crate::cdtime::nanos_of;
use crate::cdtime::collectd_to_nanos;
use crate::cdtime::NANOS_PER_SEC;

verus! {

/// The decimal digit character for `d`.
pub open spec fn digit_char(d: int) -> char {
    if d == 0 {
        '0'
    } else if d == 1 {
        '1'
    } else if d == 2 {
        '2'
    } else if d == 3 {
        '3'
    } else if d == 4 {
        '4'
    } else if d == 5 {
        '5'
    } else if d == 6 {
        '6'
    } else if d == 7 {
        '7'
    } else if d == 8 {
        '8'
    } else {
        '9'
    }
}

/// The decimal text of `n`: most significant digit first, no sign and no
/// padding.
pub open spec fn dec_str(n: int) -> Seq<char>
    decreases n,
{
    if n < 10 {
        seq![digit_char(n)]
    } else {
        dec_str(n / 10).push(digit_char(n % 10))
    }
}

fn digit_char_of(d: u64) -> (r: char)
    requires
        d < 10,
    ensures
        r == digit_char(d as int),
{
    if d == 0 {
        '0'
    } else if d == 1 {
        '1'
    } else if d == 2 {
        '2'
    } else if d == 3 {
        '3'
    } else if d == 4 {
        '4'
    } else if d == 5 {
        '5'
    } else if d == 6 {
        '6'
    } else if d == 7 {
        '7'
    } else if d == 8 {
        '8'
    } else {
        '9'
    }
}

/// Append the decimal text of `n` to `out`.
pub fn push_decimal(out: &mut Vec<char>, n: u64)
    ensures
        final(out)@ == old(out)@ + dec_str(n as int),
    decreases n,
{
    if n >= 10 {
        assert(n / 10 < n) by (nonlinear_arith)
            requires
                n >= 10,
        ;
        push_decimal(out, n / 10);
    }
    let d = digit_char_of(n % 10);
    out.push(d);
    proof {
        assert(out@ =~= old(out)@ + dec_str(n as int));
    }
}

/// Append the characters of `s` to `out`, unchanged.
pub fn push_text(out: &mut Vec<char>, s: &str)
    ensures
        final(out)@ == old(out)@ + s@,
{
    broadcast use vstd::string::axiom_spec_iter;

    for c in it: s.chars()
        invariant
            it.seq() == s@,
            out@ == old(out)@ + s@.take(it.index() as int),
    {
        out.push(c);
        proof {
            assert(out@ =~= old(out)@ + s@.take(it.index() + 1));
        }
    }
    assert(out@ =~= old(out)@ + s@);
}

/// Append the characters of `v` to `out`.
fn push_chars(out: &mut Vec<char>, v: &Vec<char>)
    ensures
        final(out)@ == old(out)@ + v@,
{
    let mut i: usize = 0;
    while i < v.len()
        invariant
            i <= v.len(),
            out@ == old(out)@ + v@.take(i as int),
        decreases v.len() - i,
    {
        out.push(v[i]);
        i = i + 1;
        proof {
            assert(out@ =~= old(out)@ + v@.take(i as int));
        }
    }
    assert(out@ =~= old(out)@ + v@);
}

/// One named value of a batch.  The value text is the host's numeric
/// rendering of the sample, passed through untouched.
pub struct NamedValue {
    pub name: String,
    pub text: String,
}

/// One reporting event: identifying metadata, a fixed-point timestamp and
/// sampling interval, and an ordered sequence of named values.  Read-only
/// to this library and never retained past one dispatch call.
pub struct SampleBatch {
    pub host: String,
    pub plugin: String,
    pub plugin_instance: Option<String>,
    pub metric_type: String,
    pub type_instance: Option<String>,
    /// Timestamp in collectd's fixed-point encoding.
    pub time: u64,
    /// Sampling interval in the same encoding.
    pub interval: u64,
    pub values: Vec<NamedValue>,
}

/// The character content of an optional segment.
pub open spec fn opt_chars(o: Option<String>) -> Option<Seq<char>> {
    match o {
        Some(s) => Some(s@),
        None => None,
    }
}

/// The hierarchical identifier: an optional raw prefix, then the
/// sanitized host, plugin (with optional instance) and type (with
/// optional instance), dot-separated, instances joined by `-`.
pub open spec fn ident_of(
    prefix: Option<Seq<char>>,
    host: Seq<char>,
    plugin: Seq<char>,
    plugin_instance: Option<Seq<char>>,
    metric_type: Seq<char>,
    type_instance: Option<Seq<char>>,
) -> Seq<char> {
    (match prefix {
        Some(p) => p + seq!['.'],
        None => Seq::empty(),
    }) + sanitized(host) + seq!['.'] + sanitized(plugin) + (match plugin_instance {
        Some(i) => seq!['-'] + sanitized(i),
        None => Seq::empty(),
    }) + seq!['.'] + sanitized(metric_type) + (match type_instance {
        Some(i) => seq!['-'] + sanitized(i),
        None => Seq::empty(),
    })
}

/// The identifier of a batch under a destination prefix.
pub open spec fn batch_ident(b: SampleBatch, prefix: Option<Seq<char>>) -> Seq<char> {
    ident_of(
        prefix,
        b.host@,
        b.plugin@,
        opt_chars(b.plugin_instance),
        b.metric_type@,
        opt_chars(b.type_instance),
    )
}

/// The batch timestamp as whole seconds since the epoch, by way of the
/// time codec's decoding.
pub open spec fn batch_secs(b: SampleBatch) -> int {
    nanos_of(b.time as int) / 1_000_000_000
}

/// One full record line: identifier, optional `.`-joined sanitized value
/// name, then the value text and the timestamp in seconds, space
/// separated and newline terminated.
pub open spec fn line_of(
    ident: Seq<char>,
    value_name: Option<Seq<char>>,
    value_text: Seq<char>,
    secs: int,
) -> Seq<char> {
    ident + (match value_name {
        Some(nm) => seq!['.'] + sanitized(nm),
        None => Seq::empty(),
    }) + seq![' '] + value_text + seq![' '] + dec_str(secs) + seq!['\n']
}

/// All record lines of a batch: one per value.  With exactly one value the
/// per-value name suffix is omitted, even if that value carries a name.
pub open spec fn lines_of(b: SampleBatch, prefix: Option<Seq<char>>) -> Seq<Seq<char>> {
    if b.values@.len() == 1 {
        seq![line_of(batch_ident(b, prefix), None, b.values@[0].text@, batch_secs(b))]
    } else {
        Seq::new(
            b.values@.len(),
            |i: int|
                line_of(
                    batch_ident(b, prefix),
                    Some(b.values@[i].name@),
                    b.values@[i].text@,
                    batch_secs(b),
                ),
        )
    }
}

/// Build the identifier of `batch` under `prefix` as characters.
fn build_ident(batch: &SampleBatch, prefix: &Option<String>) -> (r: Vec<char>)
    ensures
        r@ == batch_ident(*batch, opt_chars(*prefix)),
{
    let mut out: Vec<char> = Vec::new();
    match prefix {
        Some(p) => {
            push_text(&mut out, p.as_str());
            out.push('.');
        },
        None => {},
    }
    push_sanitized(&mut out, batch.host.as_str());
    out.push('.');
    push_sanitized(&mut out, batch.plugin.as_str());
    match &batch.plugin_instance {
        Some(i) => {
            out.push('-');
            push_sanitized(&mut out, i.as_str());
        },
        None => {},
    }
    out.push('.');
    push_sanitized(&mut out, batch.metric_type.as_str());
    match &batch.type_instance {
        Some(i) => {
            out.push('-');
            push_sanitized(&mut out, i.as_str());
        },
        None => {},
    }
    proof {
        assert(out@ =~= batch_ident(*batch, opt_chars(*prefix)));
    }
    out
}

/// Append the per-value tail of a line: space, value text, space,
/// timestamp text, newline.
fn finish_line(out: &mut Vec<char>, value_text: &str, time_text: &Vec<char>)
    ensures
        final(out)@ == old(out)@ + seq![' '] + value_text@ + seq![' '] + time_text@ + seq!['\n'],
{
    out.push(' ');
    push_text(out, value_text);
    out.push(' ');
    push_chars(out, time_text);
    out.push('\n');
    proof {
        assert(out@ =~= old(out)@ + seq![' '] + value_text@ + seq![' '] + time_text@
            + seq!['\n']);
    }
}

/// Build every record line of `batch` under `prefix`, in value order.
pub fn build_lines(batch: &SampleBatch, prefix: &Option<String>) -> (r: Vec<String>)
    ensures
        r@.map_values(|s: String| s@) == lines_of(*batch, opt_chars(*prefix)),
{
    let ident = build_ident(batch, prefix);
    let nanos = collectd_to_nanos(batch.time);
    let secs: u64 = nanos / NANOS_PER_SEC;
    let mut time_text: Vec<char> = Vec::new();
    push_decimal(&mut time_text, secs);
    proof {
        assert(time_text@ =~= dec_str(batch_secs(*batch)));
    }
    let mut lines: Vec<String> = Vec::new();
    if batch.values.len() == 1 {
        let mut l = ident;
        finish_line(&mut l, batch.values[0].text.as_str(), &time_text);
        let ghost lv = l@;
        lines.push(chars_to_string(l));
        proof {
        let all = lines_of(*batch, opt_chars(*prefix));
        assert(lv =~= all[0]);
        assert(lines@.map_values(|s: String| s@) =~= seq![lv]);
        assert(seq![lv] =~= all);
        }
    } else {
        let mut i: usize = 0;
        proof {
            assert(lines@.map_values(|s: String| s@) =~= lines_of(
                *batch,
                opt_chars(*prefix),
            ).take(0));
        }
        while i < batch.values.len()
            invariant
                i <= batch.values.len(),
                batch.values@.len() != 1,
                ident@ == batch_ident(*batch, opt_chars(*prefix)),
                time_text@ == dec_str(batch_secs(*batch)),
                lines@.map_values(|s: String| s@) == lines_of(*batch, opt_chars(*prefix)).take(
                    i as int,
                ),
            decreases batch.values.len() - i,
        {
            let mut l: Vec<char> = Vec::new();
            push_chars(&mut l, &ident);
            l.push('.');
            push_sanitized(&mut l, batch.values[i].name.as_str());
            finish_line(&mut l, batch.values[i].text.as_str(), &time_text);
            let ghost lv = l@;
            let ghost prev = lines@.map_values(|s: String| s@);
            lines.push(chars_to_string(l));
            proof {
                let all = lines_of(*batch, opt_chars(*prefix));
                assert(lv =~= all[i as int]);
                assert(lines@.map_values(|s: String| s@) =~= prev.push(lv));
                assert(all.take(i as int + 1) =~= all.take(i as int).push(all[i as int]));
            }
            i = i + 1;
        }
        proof {
            assert(lines_of(*batch, opt_chars(*prefix)).take(batch.values@.len() as int)
                =~= lines_of(*batch, opt_chars(*prefix)));
        }
    }
    lines
}

} // verus!
