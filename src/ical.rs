//! The calendar cache's command line and the helpers it runs on: argument
//! parsing, the URL list, a stable hash of a URL, and iCalendar text.
use vstd::prelude::*;
use crate::text::{from_chars, owned, starts_with_seq, str_is, to_chars};

verus! {

/// The FNV-1a offset basis and prime.
pub const FNV_OFFSET: u64 = 0xcbf29ce484222325;

pub const FNV_PRIME: u64 = 0x100000001b3;

/// The 64-bit FNV-1a hash of `b`.
pub open spec fn fnv1a(b: Seq<u8>) -> u64
    decreases b.len(),
{
    if b.len() == 0 {
        FNV_OFFSET
    } else {
        (fnv1a(b.drop_last()) ^ (b.last() as u64)).wrapping_mul(FNV_PRIME)
    }
}

/// The 64-bit FNV-1a hash of the UTF-8 bytes of `s`, the same in every run.
pub fn stable_hash(s: &str) -> (r: u64)
    ensures
        r == fnv1a(crate::text::utf8_of(s@)),
{
    let bytes = s.as_bytes();
    let mut hash: u64 = FNV_OFFSET;
    let mut i: usize = 0;
    while i < bytes.len()
        invariant
            i <= bytes@.len(),
            bytes@ == crate::text::utf8_of(s@),
            hash == fnv1a(bytes@.subrange(0, i as int)),
        decreases bytes@.len() - i,
    {
        assert(bytes@.subrange(0, i + 1).drop_last() == bytes@.subrange(0, i as int));
        hash = (hash ^ (bytes[i] as u64)).wrapping_mul(FNV_PRIME);
        i = i + 1;
    }
    assert(bytes@.subrange(0, i as int) == bytes@);
    hash
}

/// The characters are equal, ignoring ASCII case.
pub open spec fn eq_ci_char(a: char, b: char) -> bool {
    a == b || ('A' <= a <= 'Z' && (a as u32) + 32 == (b as u32)) || ('A' <= b <= 'Z' && (b as u32) + 32
        == (a as u32))
}

/// The strings are equal, ignoring ASCII case.
pub open spec fn eq_ci(a: Seq<char>, b: Seq<char>) -> bool {
    a.len() == b.len() && forall|k: int| 0 <= k < a.len() ==> eq_ci_char(#[trigger] a[k], b[k])
}

fn eq_ignore_ascii_case(a: &str, b: &str) -> (r: bool)
    ensures
        r == eq_ci(a@, b@),
{
    let x = to_chars(a);
    let y = to_chars(b);
    if x.len() != y.len() {
        return false;
    }
    let mut k: usize = 0;
    while k < x.len()
        invariant
            x@ == a@,
            y@ == b@,
            x@.len() == y@.len(),
            k <= x@.len(),
            forall|m: int| 0 <= m < k ==> eq_ci_char(#[trigger] x@[m], y@[m]),
        decreases x@.len() - k,
    {
        let c = x[k];
        let d = y[k];
        let same = c == d || ('A' <= c && c <= 'Z' && (c as u32) + 32 == (d as u32)) || ('A' <= d && d
            <= 'Z' && (d as u32) + 32 == (c as u32));
        if !same {
            return false;
        }
        k = k + 1;
    }
    true
}

/// The first value of the first parameter named `key`, ignoring ASCII case.
pub open spec fn param_value_of(params: Seq<(String, Vec<String>)>, key: Seq<char>) -> Option<Seq<char>>
    decreases params.len(),
{
    if params.len() == 0 {
        None
    } else if eq_ci(params[0].0@, key) {
        if params[0].1@.len() == 0 {
            None
        } else {
            Some(params[0].1@[0]@)
        }
    } else {
        param_value_of(params.drop_first(), key)
    }
}

/// The first value of the first parameter named `key`, ignoring ASCII case.
pub fn param_value(params: &Vec<(String, Vec<String>)>, key: &str) -> (r: Option<String>)
    ensures
        crate::errors::opt_view(r) == param_value_of(params@, key@),
{
    let mut i: usize = 0;
    assert(params@.subrange(0, params@.len() as int) == params@);
    while i < params.len()
        invariant
            i <= params@.len(),
            param_value_of(params@, key@) == param_value_of(params@.subrange(i as int, params@.len() as int), key@),
        decreases params@.len() - i,
    {
        let ghost rest = params@.subrange(i as int, params@.len() as int);
        assert(rest[0] == params@[i as int]);
        if eq_ignore_ascii_case(params[i].0.as_str(), key) {
            if params[i].1.len() == 0 {
                return None;
            }
            return Some(params[i].1[0].clone());
        }
        assert(rest.drop_first() == params@.subrange(i + 1, params@.len() as int));
        i = i + 1;
    }
    None
}

/// `s` with every occurrence of `pat` replaced by `rep`, left to right.
pub open spec fn replaced(s: Seq<char>, pat: Seq<char>, rep: Seq<char>) -> Seq<char>
    decreases s.len(),
{
    if s.len() == 0 {
        Seq::empty()
    } else if pat.len() > 0 && starts_with_seq(s, pat) {
        rep + replaced(s.subrange(pat.len() as int, s.len() as int), pat, rep)
    } else {
        seq![s[0]] + replaced(s.drop_first(), pat, rep)
    }
}

fn replace_all(s: &Vec<char>, pat: &str, rep: &str) -> (r: Vec<char>)
    ensures
        r@ == replaced(s@, pat@, rep@),
{
    let p = to_chars(pat);
    let q = to_chars(rep);
    let n = s.len();
    let mut out: Vec<char> = Vec::new();
    let mut i: usize = 0;
    assert(s@.subrange(0, n as int) == s@);
    assert(out@ + replaced(s@, pat@, rep@) =~= replaced(s@, pat@, rep@));
    while i < n
        invariant
            n == s@.len(),
            i <= n,
            p@ == pat@,
            q@ == rep@,
            out@ + replaced(s@.subrange(i as int, n as int), pat@, rep@) == replaced(s@, pat@, rep@),
        decreases n - i,
    {
        let ghost rest = s@.subrange(i as int, n as int);
        if p.len() > 0 && crate::text::occurs_at_exec(s, &p, i) {
            assert(rest.subrange(0, p@.len() as int) == s@.subrange(i as int, i + p@.len()));
            assert(rest.subrange(p@.len() as int, rest.len() as int) == s@.subrange(i + p@.len(), n as int));
            let ghost before = out@;
            let mut k: usize = 0;
            while k < q.len()
                invariant
                    k <= q@.len(),
                    out@ == before + q@.subrange(0, k as int),
                decreases q@.len() - k,
            {
                out.push(q[k]);
                assert(q@.subrange(0, k + 1) == q@.subrange(0, k as int).push(q@[k as int]));
                k = k + 1;
            }
            assert(q@.subrange(0, q@.len() as int) == q@);
            assert(out@ + replaced(s@.subrange(i + p@.len(), n as int), pat@, rep@) == before + replaced(rest, pat@, rep@));
            i = i + p.len();
        } else {
            assert(rest.drop_first() == s@.subrange(i + 1, n as int));
            proof {
                if p@.len() <= rest.len() {
                    assert(rest.subrange(0, p@.len() as int) =~= s@.subrange(i as int, i + p@.len()));
                }
            }
            assert(!(p@.len() > 0 && starts_with_seq(rest, p@)));
            let ghost before = out@;
            out.push(s[i]);
            assert(out@ + replaced(s@.subrange(i + 1, n as int), pat@, rep@) == before + replaced(rest, pat@, rep@));
            i = i + 1;
        }
    }
    assert(out@ + replaced(s@.subrange(n as int, n as int), pat@, rep@) =~= out@);
    out
}

/// iCalendar text with its escapes undone, in the order `\\`, `\n`, `\,`, `\;`.
pub open spec fn unescaped(v: Seq<char>) -> Seq<char> {
    replaced(
        replaced(replaced(replaced(v, "\\\\"@, "\\"@), "\\n"@, "\n"@), "\\,"@, ","@),
        "\\;"@,
        ";"@,
    )
}

/// Undoes the escapes of an iCalendar text value.
pub fn unescape_ical(value: String) -> (r: String)
    ensures
        r@ == unescaped(value@),
{
    let v = to_chars(value.as_str());
    let a = replace_all(&v, "\\\\", "\\");
    let b = replace_all(&a, "\\n", "\n");
    let c = replace_all(&b, "\\,", ",");
    let d = replace_all(&c, "\\;", ";");
    from_chars(&d)
}

pub open spec fn is_digit(c: char) -> bool {
    '0' <= c <= '9'
}

/// The number that a string of decimal digits writes.
pub open spec fn digits_value(s: Seq<char>) -> int
    decreases s.len(),
{
    if s.len() == 0 {
        0
    } else {
        digits_value(s.drop_last()) * 10 + ((s.last() as u32) - 48)
    }
}

/// The digits of a signed decimal, after an optional `+` or `-`.
pub open spec fn digits_part(s: Seq<char>) -> Seq<char> {
    if s.len() > 0 && (s[0] == '-' || s[0] == '+') {
        s.drop_first()
    } else {
        s
    }
}

/// What `str::parse::<i64>` gives: an optional sign, then one or more decimal
/// digits, whose value fits.
pub open spec fn parsed_i64(s: Seq<char>) -> Option<int> {
    let body = digits_part(s);
    let v = if s.len() > 0 && s[0] == '-' {
        -digits_value(body)
    } else {
        digits_value(body)
    };
    if body.len() == 0 || !(forall|k: int| 0 <= k < body.len() ==> is_digit(#[trigger] body[k])) {
        None
    } else if i64::MIN <= v <= i64::MAX {
        Some(v)
    } else {
        None
    }
}

/// Parses a signed decimal that fits in an `i64`.
pub fn parse_i64(s: &str) -> (r: Option<i64>)
    ensures
        match r {
            Some(v) => parsed_i64(s@) == Some(v as int),
            None => parsed_i64(s@) is None,
        },
{
    let v = to_chars(s);
    let neg = v.len() > 0 && v[0] == '-';
    let start: usize = if v.len() > 0 && (v[0] == '-' || v[0] == '+') {
        1
    } else {
        0
    };
    let ghost body = digits_part(s@);
    assert(body == v@.subrange(start as int, v@.len() as int));
    if start >= v.len() {
        return None;
    }
    let limit: u64 = 0x8000000000000000;
    let mut acc: u64 = 0;
    let mut over = false;
    let mut i: usize = start;
    while i < v.len()
        invariant
            start <= i <= v@.len(),
            limit == 0x8000000000000000u64,
            v@ == s@,
            body == digits_part(s@),
            body == v@.subrange(start as int, v@.len() as int),
            forall|k: int| start <= k < i ==> is_digit(#[trigger] v@[k]),
            !over ==> acc as int == digits_value(v@.subrange(start as int, i as int)) && acc <= limit,
            over ==> digits_value(v@.subrange(start as int, i as int)) > limit,
        decreases v@.len() - i,
    {
        let c = v[i];
        if !('0' <= c && c <= '9') {
            assert(!is_digit(body[i - start]));
            return None;
        }
        let d = (c as u32 - 48) as u64;
        let ghost pre = v@.subrange(start as int, i as int);
        assert(v@.subrange(start as int, i + 1).drop_last() == pre);
        assert(digits_value(v@.subrange(start as int, i + 1)) == digits_value(pre) * 10 + d);
        if !over {
            if acc > (limit - d) / 10 {
                over = true;
                assert(digits_value(pre) * 10 + d > limit) by (nonlinear_arith)
                    requires
                        digits_value(pre) == acc,
                        acc > (limit - d) / 10,
                        d <= 9,
                        limit == 0x8000000000000000,
                ;
            } else {
                assert(acc * 10 + d <= limit) by (nonlinear_arith)
                    requires
                        acc <= (limit - d) / 10,
                        d <= 9,
                        limit == 0x8000000000000000,
                ;
                acc = acc * 10 + d;
            }
        } else {
            assert(digits_value(pre) * 10 + d > limit) by (nonlinear_arith)
                requires
                    digits_value(pre) > limit,
                    d <= 9,
            ;
        }
        i = i + 1;
    }
    assert forall|k: int| 0 <= k < body.len() implies is_digit(#[trigger] body[k]) by {
        assert(body[k] == v@[start + k]);
    }
    if over {
        return None;
    }
    if neg {
        if acc == limit {
            Some(i64::MIN)
        } else {
            Some(0i64 - acc as i64)
        }
    } else if acc < limit {
        Some(acc as i64)
    } else {
        None
    }
}

/// The calendar cache's settings from its command line.
pub struct Args {
    pub urls: Vec<String>,
    pub cache_dir: String,
    pub days: i64,
    pub env_file: Option<String>,
}

/// The settings as parsing goes.
pub struct ArgsView {
    pub urls: Seq<Seq<char>>,
    pub cache_dir: Option<Seq<char>>,
    pub days: int,
    pub env_file: Option<Seq<char>>,
}

/// The settings before any argument: 180 days, nothing else set.
pub open spec fn args_start() -> ArgsView {
    ArgsView { urls: Seq::empty(), cache_dir: None, days: 180, env_file: None }
}

/// Parsing the arguments `a` from position `i` on, with the settings `st` so far.
pub open spec fn parse_from(a: Seq<Seq<char>>, i: int, st: ArgsView) -> Result<ArgsView, Seq<char>>
    decreases a.len() + 2 - i,
{
    if i < 0 || i >= a.len() {
        Ok(st)
    } else {
        let x = a[i];
        let has = i + 1 < a.len();
        let next = if has {
            Some(a[i + 1])
        } else {
            None
        };
        if x == "--url"@ {
            if has {
                parse_from(a, i + 2, ArgsView { urls: st.urls.push(a[i + 1]), ..st })
            } else {
                Ok(st)
            }
        } else if x == "--cache-dir"@ {
            parse_from(a, i + 2, ArgsView { cache_dir: next, ..st })
        } else if x == "--env-file"@ {
            parse_from(a, i + 2, ArgsView { env_file: next, ..st })
        } else if x == "--days"@ {
            if has {
                match parsed_i64(a[i + 1]) {
                    None => Err("Invalid --days"@),
                    Some(d) => parse_from(a, i + 2, ArgsView { days: d, ..st }),
                }
            } else {
                Ok(st)
            }
        } else {
            parse_from(a, i + 1, st)
        }
    }
}

/// What parsing the whole command line gives.
pub open spec fn parsed_args(a: Seq<Seq<char>>) -> Result<ArgsView, Seq<char>> {
    match parse_from(a, 0, args_start()) {
        Err(e) => Err(e),
        Ok(st) => if st.cache_dir is None {
            Err("Missing --cache-dir"@)
        } else {
            Ok(st)
        },
    }
}

pub open spec fn opt_seq(o: Option<String>) -> Option<Seq<char>> {
    crate::errors::opt_view(o)
}

impl Args {
    /// What these settings hold.
    pub open spec fn view_of(&self) -> ArgsView {
        ArgsView {
            urls: crate::text::views(self.urls@),
            cache_dir: Some(self.cache_dir@),
            days: self.days as int,
            env_file: opt_seq(self.env_file),
        }
    }

    /// Reads `--url` (repeatable), `--cache-dir` (required), `--env-file` and
    /// `--days` (180 unless given), ignoring anything else.
    pub fn parse(input_args: Vec<String>) -> (r: Result<Args, String>)
        ensures
            match r {
                Ok(args) => parsed_args(crate::text::views(input_args@)) == Ok::<ArgsView, Seq<char>>(args.view_of()),
                Err(e) => parsed_args(crate::text::views(input_args@)) == Err::<ArgsView, Seq<char>>(e@),
            },
    {
        let ghost a = crate::text::views(input_args@);
        let mut urls: Vec<String> = Vec::new();
        let mut cache_dir: Option<String> = None;
        let mut days: i64 = 180;
        let mut env_file: Option<String> = None;
        let n = input_args.len();
        let mut i: usize = 0;
        assert(crate::text::views(urls@) =~= Seq::<Seq<char>>::empty());
        while i < n
            invariant
                n == input_args@.len(),
                a == crate::text::views(input_args@),
                i <= n + 1,
                parse_from(a, 0, args_start()) == parse_from(
                    a,
                    i as int,
                    ArgsView {
                        urls: crate::text::views(urls@),
                        cache_dir: opt_seq(cache_dir),
                        days: days as int,
                        env_file: opt_seq(env_file),
                    },
                ),
            decreases n + 1 - i,
        {
            let ghost st = ArgsView {
                urls: crate::text::views(urls@),
                cache_dir: opt_seq(cache_dir),
                days: days as int,
                env_file: opt_seq(env_file),
            };
            let x = input_args[i].as_str();
            let has = i + 1 < n;
            assert(a[i as int] == input_args@[i as int]@);
            if has {
                assert(a[i + 1] == input_args@[i + 1]@);
            }
            if str_is(x, "--url") {
                if has {
                    let u = input_args[i + 1].clone();
                    assert(crate::text::views(urls@.push(u)) =~= crate::text::views(urls@).push(u@));
                    assert(parse_from(a, i as int, st) == parse_from(
                        a,
                        i + 2,
                        ArgsView { urls: st.urls.push(a[i + 1]), ..st },
                    ));
                    urls.push(u);
                    i = i + 2;
                } else {
                    assert(parse_from(a, i as int, st) == Ok::<ArgsView, Seq<char>>(st));
                    i = n;
                }
            } else if str_is(x, "--cache-dir") {
                cache_dir = if has {
                    Some(input_args[i + 1].clone())
                } else {
                    None
                };
                assert(parse_from(a, i as int, st) == parse_from(
                    a,
                    i + 2,
                    ArgsView { cache_dir: opt_seq(cache_dir), ..st },
                ));
                i = if has {
                    i + 2
                } else {
                    n
                };
            } else if str_is(x, "--env-file") {
                env_file = if has {
                    Some(input_args[i + 1].clone())
                } else {
                    None
                };
                assert(parse_from(a, i as int, st) == parse_from(
                    a,
                    i + 2,
                    ArgsView { env_file: opt_seq(env_file), ..st },
                ));
                i = if has {
                    i + 2
                } else {
                    n
                };
            } else if str_is(x, "--days") {
                if has {
                    match parse_i64(input_args[i + 1].as_str()) {
                        None => return Err(owned("Invalid --days")),
                        Some(d) => {
                            assert(parse_from(a, i as int, st) == parse_from(
                                a,
                                i + 2,
                                ArgsView { days: d as int, ..st },
                            ));
                            days = d;
                        },
                    }
                    i = i + 2;
                } else {
                    assert(parse_from(a, i as int, st) == Ok::<ArgsView, Seq<char>>(st));
                    i = n;
                }
            } else {
                assert(parse_from(a, i as int, st) == parse_from(a, i + 1, st));
                i = i + 1;
            }
        }
        match cache_dir {
            None => Err(owned("Missing --cache-dir")),
            Some(c) => Ok(Args { urls, cache_dir: c, days, env_file }),
        }
    }
}

/// The calendar URLs: those given with `--url`, then the non-blank
/// comma-separated entries of `CALENDAR_ICAL_URL`, trimmed.
pub open spec fn env_urls(env: Seq<char>) -> Seq<Seq<char>> {
    url_pieces(crate::text::split_seq(env, ','))
}

pub open spec fn url_pieces(p: Seq<Seq<char>>) -> Seq<Seq<char>>
    decreases p.len(),
{
    if p.len() == 0 {
        Seq::empty()
    } else if crate::text::trim_seq(p.last()).len() == 0 {
        url_pieces(p.drop_last())
    } else {
        url_pieces(p.drop_last()).push(crate::text::trim_seq(p.last()))
    }
}

pub open spec fn all_urls(cli: Seq<Seq<char>>, env: Option<Seq<char>>) -> Seq<Seq<char>> {
    match env {
        Some(e) => cli + env_urls(e),
        None => cli,
    }
}

/// The URLs to fetch, given the value of `CALENDAR_ICAL_URL` if it is set;
/// an error where there are none.
pub fn resolve_urls(args: &Args, env_value: Option<&str>) -> (r: Result<Vec<String>, String>)
    ensures
        match r {
            Ok(v) => crate::text::views(v@) == all_urls(crate::text::views(args.urls@), match env_value {
                Some(e) => Some(e@),
                None => None::<Seq<char>>,
            }) && v@.len() > 0,
            Err(e) => all_urls(crate::text::views(args.urls@), match env_value {
                Some(e) => Some(e@),
                None => None::<Seq<char>>,
            }).len() == 0 && e@ == "Missing calendar URL. Provide --url or CALENDAR_ICAL_URL."@,
        },
{
    let mut all: Vec<String> = Vec::new();
    let mut i: usize = 0;
    while i < args.urls.len()
        invariant
            i <= args.urls@.len(),
            crate::text::views(all@) == crate::text::views(args.urls@.subrange(0, i as int)),
        decreases args.urls@.len() - i,
    {
        let u = args.urls[i].clone();
        assert(args.urls@.subrange(0, i + 1) == args.urls@.subrange(0, i as int).push(args.urls@[i as int]));
        assert(crate::text::views(all@.push(u)) =~= crate::text::views(all@).push(u@));
        assert(crate::text::views(args.urls@.subrange(0, i + 1)) =~= crate::text::views(
            args.urls@.subrange(0, i as int),
        ).push(args.urls@[i as int]@));
        all.push(u);
        i = i + 1;
    }
    assert(args.urls@.subrange(0, i as int) == args.urls@);
    let ghost cli = crate::text::views(all@);
    match env_value {
        None => {},
        Some(e) => {
            let pieces = crate::text::split_chars(e, ',');
            let mut k: usize = 0;
            while k < pieces.len()
                invariant
                    k <= pieces@.len(),
                    crate::text::views(pieces@) == crate::text::split_seq(e@, ','),
                    crate::text::views(all@) == cli + url_pieces(crate::text::views(pieces@.subrange(0, k as int))),
                decreases pieces@.len() - k,
            {
                assert(crate::text::views(pieces@.subrange(0, k + 1)).drop_last() == crate::text::views(
                    pieces@.subrange(0, k as int),
                ));
                let t = crate::text::trim(pieces[k].as_str());
                if !t.as_str().is_empty() {
                    assert(crate::text::views(all@.push(t)) =~= crate::text::views(all@).push(t@));
                    all.push(t);
                }
                k = k + 1;
            }
            assert(pieces@.subrange(0, k as int) == pieces@);
        },
    }
    if all.len() == 0 {
        return Err(owned("Missing calendar URL. Provide --url or CALENDAR_ICAL_URL."));
    }
    Ok(all)
}

} // verus!
