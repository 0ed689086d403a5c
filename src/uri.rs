//! Local file paths from a `text/uri-list` clipboard payload.
use vstd::prelude::*;
use crate::text::{
    from_chars, push_char, slice_vec, starts_with_seq, starts_with_vec, to_chars, trim_seq,
    trim_vec,
};

verus! {

/// The value of an ASCII hexadecimal digit.
pub open spec fn hex_value(b: u8) -> Option<nat> {
    if 48 <= b <= 57 {
        Some((b - 48) as nat)
    } else if 97 <= b <= 102 {
        Some((b - 87) as nat)
    } else if 65 <= b <= 70 {
        Some((b - 55) as nat)
    } else {
        None
    }
}

fn hex_digit(b: u8) -> (r: Option<u8>)
    ensures
        match r {
            Some(v) => hex_value(b) == Some(v as nat) && v < 16,
            None => hex_value(b) is None,
        },
{
    if 48 <= b && b <= 57 {
        Some(b - 48)
    } else if 97 <= b && b <= 102 {
        Some(b - 87)
    } else if 65 <= b && b <= 70 {
        Some(b - 55)
    } else {
        None
    }
}

/// Bytes with each `%XY` escape replaced by the byte it names; every byte
/// stands for the character of the same number.
pub open spec fn percent_decoded(b: Seq<u8>) -> Seq<char>
    decreases b.len(),
{
    if b.len() == 0 {
        Seq::empty()
    } else if b[0] == 37 && 2 < b.len() && hex_value(b[1]) is Some && hex_value(b[2]) is Some {
        seq![((hex_value(b[1])->0 * 16 + hex_value(b[2])->0) as u8) as char] + percent_decoded(
            b.subrange(3, b.len() as int),
        )
    } else {
        seq![b[0] as char] + percent_decoded(b.drop_first())
    }
}

/// Decodes the `%XY` escapes of a `file://` path.
pub fn percent_decode(s: &str) -> (r: String)
    ensures
        r@ == percent_decoded(crate::text::utf8_of(s@)),
{
    let bytes = s.as_bytes();
    let n = bytes.len();
    let mut out = String::new();
    let mut i: usize = 0;
    assert(bytes@.subrange(0, n as int) == bytes@);
    assert(out@ + percent_decoded(bytes@) =~= percent_decoded(bytes@));
    while i < n
        invariant
            n == bytes@.len(),
            i <= n,
            out@ + percent_decoded(bytes@.subrange(i as int, n as int)) == percent_decoded(bytes@),
        decreases n - i,
    {
        let ghost rest = bytes@.subrange(i as int, n as int);
        if bytes[i] == 37 && n - i > 2 {
            let h1 = hex_digit(bytes[i + 1]);
            let h2 = hex_digit(bytes[i + 2]);
            if let (Some(a), Some(b)) = (h1, h2) {
                let v: u8 = a * 16 + b;
                assert(rest.subrange(3, rest.len() as int) == bytes@.subrange(i + 3, n as int));
                assert(out@.push(v as char) + percent_decoded(bytes@.subrange(i + 3, n as int))
                    == out@ + percent_decoded(rest));
                push_char(&mut out, v as char);
                i = i + 3;
                continue;
            }
        }
        assert(rest.drop_first() == bytes@.subrange(i + 1, n as int));
        assert(out@.push(bytes@[i as int] as char) + percent_decoded(bytes@.subrange(i + 1, n as int))
            == out@ + percent_decoded(rest));
        push_char(&mut out, bytes[i] as char);
        i = i + 1;
    }
    assert(out@ + percent_decoded(bytes@.subrange(n as int, n as int)) =~= out@);
    out
}

/// The path that one line of a URI list names: a local `file:///path` or
/// `file://localhost/path`, percent-decoded; comments, blank lines and other
/// hosts name none.
pub open spec fn line_path(l: Seq<char>) -> Option<Seq<char>> {
    let t = trim_seq(l);
    if t.len() == 0 || starts_with_seq(t, "#"@) || !starts_with_seq(t, "file://"@) {
        None
    } else {
        let rest = trim_seq(t.subrange(7, t.len() as int));
        if starts_with_seq(rest, "/"@) {
            Some(percent_decoded(crate::text::utf8_of(rest)))
        } else if starts_with_seq(rest, "localhost"@) && starts_with_seq(
            rest.subrange(9, rest.len() as int),
            "/"@,
        ) {
            Some(percent_decoded(crate::text::utf8_of(rest.subrange(9, rest.len() as int))))
        } else {
            None
        }
    }
}

/// The lines of `s`, split at each line feed.
pub open spec fn lines_of(s: Seq<char>) -> Seq<Seq<char>>
    decreases s.len(),
{
    if s.len() == 0 {
        seq![Seq::empty()]
    } else {
        let r = lines_of(s.drop_last());
        if s.last() == '\n' {
            r.push(Seq::empty())
        } else {
            r.update(r.len() - 1, r.last().push(s.last()))
        }
    }
}

/// The paths that the lines `ls` name, in order.
pub open spec fn paths_from(ls: Seq<Seq<char>>) -> Seq<Seq<char>>
    decreases ls.len(),
{
    if ls.len() == 0 {
        Seq::empty()
    } else {
        let p = paths_from(ls.drop_last());
        match line_path(ls.last()) {
            Some(x) => p.push(x),
            None => p,
        }
    }
}

fn line_path_exec(l: &Vec<char>) -> (r: Option<String>)
    ensures
        crate::errors::opt_view(r) == line_path(l@),
{
    let t = trim_vec(l);
    if t.len() == 0 || starts_with_vec(&t, &to_chars("#")) || !starts_with_vec(&t, &to_chars("file://")) {
        return None;
    }
    proof {
        reveal_strlit("file://");
    }
    let rest = trim_vec(&slice_vec(&t, 7, t.len()));
    if starts_with_vec(&rest, &to_chars("/")) {
        let s = from_chars(&rest);
        return Some(percent_decode(s.as_str()));
    }
    if starts_with_vec(&rest, &to_chars("localhost")) {
        proof {
            reveal_strlit("localhost");
        }
        let after = slice_vec(&rest, 9, rest.len());
        if starts_with_vec(&after, &to_chars("/")) {
            let s = from_chars(&after);
            return Some(percent_decode(s.as_str()));
        }
    }
    None
}

/// The local file paths that a `text/uri-list` payload names, in order.
pub fn parse_uri_list_to_paths(uri_list: &str) -> (r: Vec<String>)
    ensures
        crate::text::views(r@) == paths_from(lines_of(uri_list@)),
{
    let v = to_chars(uri_list);
    let mut out: Vec<String> = Vec::new();
    let mut cur: Vec<char> = Vec::new();
    let ghost mut done: Seq<Seq<char>> = Seq::empty();
    let mut i: usize = 0;
    while i < v.len()
        invariant
            i <= v@.len(),
            lines_of(v@.subrange(0, i as int)) == done.push(cur@),
            crate::text::views(out@) == paths_from(done),
        decreases v@.len() - i,
    {
        let c = v[i];
        assert(v@.subrange(0, i + 1).drop_last() == v@.subrange(0, i as int));
        if c == '\n' {
            match line_path_exec(&cur) {
                Some(p) => {
                    assert(crate::text::views(out@.push(p)) =~= crate::text::views(out@).push(p@));
                    out.push(p);
                },
                None => {},
            }
            proof {
                assert(done.push(cur@).drop_last() == done);
                done = done.push(cur@);
            }
            cur = Vec::new();
            assert(cur@ =~= Seq::<char>::empty());
        } else {
            proof {
                assert(done.push(cur@).update(done.len() as int, cur@.push(c)) =~= done.push(cur@.push(c)));
            }
            cur.push(c);
        }
        i = i + 1;
    }
    assert(v@.subrange(0, i as int) == v@);
    match line_path_exec(&cur) {
        Some(p) => {
            assert(crate::text::views(out@.push(p)) =~= crate::text::views(out@).push(p@));
            out.push(p);
        },
        None => {},
    }
    assert(done.push(cur@).drop_last() == done);
    out
}

} // verus!
