//! Small helpers of the system panels: clamping, uptime text, and reading a
//! value out of `smartctl` output.
use vstd::prelude::*;
use crate::text::{
    decimal_seq, find_seq, find_vec, join, join_seq, push_decimal, push_str, slice_vec,
    to_chars, trim_seq, trim_vec, views, from_chars, owned, str_is,
};

verus! {

/// `x` held within `[min, max]`, the lower bound checked first.
pub open spec fn clamped(x: i32, min: i32, max: i32) -> i32 {
    if x < min {
        min
    } else if x > max {
        max
    } else {
        x
    }
}

/// `x` held within `[min, max]`.
pub fn clamp_i32(x: i32, min: i32, max: i32) -> (r: i32)
    ensures
        r == clamped(x, min, max),
{
    if x < min {
        return min;
    }
    if x > max {
        return max;
    }
    x
}

/// `n` and a unit, the unit in the plural unless `n` is one.
pub open spec fn count_text(n: nat, one: Seq<char>, many: Seq<char>) -> Seq<char> {
    decimal_seq(n) + " "@ + if n == 1 {
        one
    } else {
        many
    }
}

/// The parts of an uptime: days and hours where not zero, then minutes where
/// not zero or where nothing came before.
pub open spec fn uptime_parts(total: nat) -> Seq<Seq<char>> {
    let days = total / 86400;
    let hours = (total % 86400) / 3600;
    let minutes = (total % 3600) / 60;
    let a = if days > 0 {
        seq![count_text(days, "day"@, "days"@)]
    } else {
        Seq::empty()
    };
    let b = if hours > 0 {
        a.push(count_text(hours, "hour"@, "hours"@))
    } else {
        a
    };
    if minutes > 0 || b.len() == 0 {
        b.push(count_text(minutes, "minute"@, "minutes"@))
    } else {
        b
    }
}

fn count_exec(n: u64, one: &str, many: &str) -> (r: String)
    ensures
        r@ == count_text(n as nat, one@, many@),
{
    let mut s = String::new();
    push_decimal(&mut s, n);
    push_str(&mut s, " ");
    if n == 1 {
        push_str(&mut s, one);
    } else {
        push_str(&mut s, many);
    }
    s
}

/// An uptime in seconds as text, such as "2 days, 3 hours, 1 minute".
pub fn format_uptime(total_seconds: u64) -> (r: String)
    ensures
        r@ == join_seq(uptime_parts(total_seconds as nat), ", "@),
{
    let days = total_seconds / 86400;
    let rem = total_seconds % 86400;
    let hours = rem / 3600;
    let rem = rem % 3600;
    let minutes = rem / 60;
    assert((total_seconds % 86400) % 3600 == total_seconds % 3600) by (nonlinear_arith);
    let mut parts: Vec<String> = Vec::new();
    if days > 0 {
        parts.push(count_exec(days, "day", "days"));
    }
    if hours > 0 {
        parts.push(count_exec(hours, "hour", "hours"));
    }
    if minutes > 0 || parts.len() == 0 {
        parts.push(count_exec(minutes, "minute", "minutes"));
    }
    assert(views(parts@) =~= uptime_parts(total_seconds as nat));
    join(&parts, ", ")
}

/// `s` without leading and trailing colons.
pub open spec fn trim_colons(s: Seq<char>) -> Seq<char>
    decreases s.len(),
{
    if s.len() > 0 && s[0] == ':' {
        trim_colons(s.drop_first())
    } else if s.len() > 0 && s.last() == ':' {
        trim_colons(s.drop_last())
    } else {
        s
    }
}

/// The lines of `s` as `str::lines` gives them: split at line feeds, a
/// carriage return before one dropped, and no empty line after a final feed.
pub open spec fn std_lines(s: Seq<char>) -> Seq<Seq<char>> {
    let raw = crate::text::split_seq(s, '\n');
    let kept = if s.len() == 0 {
        Seq::empty()
    } else if s.last() == '\n' {
        raw.drop_last()
    } else {
        raw
    };
    kept.map_values(|l: Seq<char>| if l.len() > 0 && l.last() == '\r' { l.drop_last() } else { l })
}

/// The value after `needle` on a line, trimmed of space and colons.
pub open spec fn value_after(line: Seq<char>, needle: Seq<char>) -> Seq<char> {
    let i = find_seq(line, needle)->0;
    trim_seq(trim_colons(trim_seq(line.subrange(i + needle.len(), line.len() as int))))
}

/// The value on the first of `lines` that holds `needle`.
pub open spec fn first_value(lines: Seq<Seq<char>>, needle: Seq<char>) -> Option<Seq<char>>
    decreases lines.len(),
{
    if lines.len() == 0 {
        None
    } else if find_seq(lines[0], needle) is Some {
        Some(value_after(lines[0], needle))
    } else {
        first_value(lines.drop_first(), needle)
    }
}

fn trim_colons_vec(v: &Vec<char>) -> (r: Vec<char>)
    ensures
        r@ == trim_colons(v@),
{
    let mut lo: usize = 0;
    let mut hi: usize = v.len();
    assert(v@.subrange(0, v@.len() as int) == v@);
    while lo < hi && (v[lo] == ':' || v[hi - 1] == ':')
        invariant
            lo <= hi <= v@.len(),
            trim_colons(v@) == trim_colons(v@.subrange(lo as int, hi as int)),
        decreases hi - lo,
    {
        let ghost t = v@.subrange(lo as int, hi as int);
        if v[lo] == ':' {
            assert(t.drop_first() == v@.subrange(lo + 1, hi as int));
            lo = lo + 1;
        } else {
            assert(t.drop_last() == v@.subrange(lo as int, hi - 1));
            hi = hi - 1;
        }
    }
    slice_vec(v, lo, hi)
}

/// The value that `smartctl` output gives after `needle`, on the first line
/// that holds it.
pub fn parse_smartctl_value(output: &str, needle: &str) -> (r: Option<String>)
    ensures
        crate::errors::opt_view(r) == first_value(std_lines(output@), needle@),
{
    let pieces = crate::text::split_chars(output, '\n');
    let v = to_chars(output);
    let nd = to_chars(needle);
    let count: usize = if v.len() == 0 {
        0
    } else if v[v.len() - 1] == '\n' {
        proof {
            crate::text::lemma_split_nonempty(output@, '\n');
        }
        pieces.len() - 1
    } else {
        pieces.len()
    };
    proof {
        crate::text::lemma_split_nonempty(output@, '\n');
    }
    let ghost lines = std_lines(output@);
    assert(lines.len() == count);
    assert(lines.subrange(0, count as int) == lines);
    let mut k: usize = 0;
    while k < count
        invariant
            k <= count <= pieces@.len(),
            lines.len() == count,
            nd@ == needle@,
            views(pieces@) == crate::text::split_seq(output@, '\n'),
            lines == std_lines(output@),
            forall|j: int| 0 <= j < count ==> #[trigger] lines[j] == (if pieces@[j]@.len() > 0
                && pieces@[j]@.last() == '\r' {
                pieces@[j]@.drop_last()
            } else {
                pieces@[j]@
            }),
            first_value(lines, needle@) == first_value(lines.subrange(k as int, count as int), needle@),
        decreases count - k,
    {
        let raw = to_chars(pieces[k].as_str());
        let line = if raw.len() > 0 && raw[raw.len() - 1] == '\r' {
            slice_vec(&raw, 0, raw.len() - 1)
        } else {
            raw
        };
        assert(line@ == lines[k as int]) by {
            if raw@.len() > 0 && raw@.last() == '\r' {
                assert(raw@.subrange(0, raw@.len() - 1) == raw@.drop_last());
            }
        }
        let ghost rest = lines.subrange(k as int, count as int);
        assert(rest[0] == lines[k as int]);
        match find_vec(&line, &nd) {
            Some(i) => {
                let ll = line.len();
                let after = trim_vec(&slice_vec(&line, i + nd.len(), ll));
                let value = trim_vec(&trim_colons_vec(&after));
                return Some(from_chars(&value));
            },
            None => {
                assert(rest.drop_first() == lines.subrange(k + 1, count as int));
            },
        }
        k = k + 1;
    }
    assert(lines.subrange(count as int, count as int) =~= Seq::<Seq<char>>::empty());
    None
}

/// The disk devices tried, in order, for the health panel.
pub open spec fn disk_candidate(i: int) -> Seq<char> {
    if i == 0 {
        "/dev/nvme0"@
    } else if i == 1 {
        "/dev/nvme0n1"@
    } else if i == 2 {
        "/dev/sda"@
    } else {
        "/dev/vda"@
    }
}

/// The disk devices tried, in order, for the health panel.
pub fn disk_candidates() -> (r: Vec<String>)
    ensures
        r@.len() == 4,
        forall|i: int| 0 <= i < 4 ==> #[trigger] r@[i]@ == disk_candidate(i),
{
    let mut v: Vec<String> = Vec::new();
    v.push(owned("/dev/nvme0"));
    v.push(owned("/dev/nvme0n1"));
    v.push(owned("/dev/sda"));
    v.push(owned("/dev/vda"));
    v
}

/// The first candidate that exists, where `exists[i]` tells of candidate
/// `i`; the first candidate where none does.
pub open spec fn default_disk_of(exists: [bool; 4]) -> Seq<char> {
    if exists[0] {
        disk_candidate(0)
    } else if exists[1] {
        disk_candidate(1)
    } else if exists[2] {
        disk_candidate(2)
    } else if exists[3] {
        disk_candidate(3)
    } else {
        disk_candidate(0)
    }
}

/// The disk device to watch, given which of the candidates exist.
pub fn default_disk_device(exists: [bool; 4]) -> (r: String)
    ensures
        r@ == default_disk_of(exists),
{
    if exists[0] {
        owned("/dev/nvme0")
    } else if exists[1] {
        owned("/dev/nvme0n1")
    } else if exists[2] {
        owned("/dev/sda")
    } else if exists[3] {
        owned("/dev/vda")
    } else {
        owned("/dev/nvme0")
    }
}

pub open spec fn value_or(v: Option<Seq<char>>, d: Seq<char>) -> Seq<char> {
    match v {
        Some(x) => x,
        None => d,
    }
}

/// The health result that `smartctl --health` output gives.
pub open spec fn health_result_of(health: Option<Seq<char>>) -> Seq<char> {
    match health {
        None => "unknown"@,
        Some(h) => match first_value(std_lines(h), "result"@) {
            Some(v) => v,
            None => value_or(first_value(std_lines(h), "SMART Health Status:"@), "unknown"@),
        },
    }
}

/// The disk's health text and wear text, given the outputs of
/// `smartctl --attributes` and `smartctl --health` where they ran.
pub open spec fn disk_health_of(attrs: Option<Seq<char>>, health: Option<Seq<char>>) -> (Seq<char>, Seq<char>) {
    if attrs is None && health is None {
        ("Unknown (smartctl missing)"@, "Unknown"@)
    } else {
        let a = value_or(attrs, Seq::empty());
        let cw = value_or(first_value(std_lines(a), "Critical Warning:"@), "unknown"@);
        let wear = value_or(first_value(std_lines(a), "Percentage Used:"@), "Unknown"@);
        let hr = health_result_of(health);
        let text = if cw == "0x00"@ && hr == "PASSED"@ {
            "Healthy"@
        } else if hr != "unknown"@ {
            hr + " ("@ + cw + ")"@
        } else {
            "Unknown ("@ + cw + ")"@
        };
        (text, wear)
    }
}

fn or_default(v: Option<String>, d: &str) -> (r: String)
    ensures
        r@ == value_or(crate::errors::opt_view(v), d@),
{
    match v {
        Some(x) => x,
        None => owned(d),
    }
}

/// The disk's health and wear, read from the two `smartctl` outputs.
pub fn read_disk_health(attrs: Option<String>, health: Option<String>) -> (r: (String, String))
    ensures
        (r.0@, r.1@) == disk_health_of(crate::errors::opt_view(attrs), crate::errors::opt_view(health)),
{
    if attrs.is_none() && health.is_none() {
        return (owned("Unknown (smartctl missing)"), owned("Unknown"));
    }
    let a = or_default(attrs, "");
    proof {
        reveal_strlit("");
    }
    let cw = or_default(parse_smartctl_value(a.as_str(), "Critical Warning:"), "unknown");
    let wear = or_default(parse_smartctl_value(a.as_str(), "Percentage Used:"), "Unknown");
    let hr = match health {
        None => owned("unknown"),
        Some(h) => match parse_smartctl_value(h.as_str(), "result") {
            Some(v) => v,
            None => or_default(parse_smartctl_value(h.as_str(), "SMART Health Status:"), "unknown"),
        },
    };
    let text = if str_is(cw.as_str(), "0x00") && str_is(hr.as_str(), "PASSED") {
        owned("Healthy")
    } else if !str_is(hr.as_str(), "unknown") {
        let mut t = String::new();
        push_str(&mut t, hr.as_str());
        push_str(&mut t, " (");
        push_str(&mut t, cw.as_str());
        push_str(&mut t, ")");
        t
    } else {
        let mut t = String::new();
        push_str(&mut t, "Unknown (");
        push_str(&mut t, cw.as_str());
        push_str(&mut t, ")");
        t
    };
    (text, wear)
}

} // verus!
