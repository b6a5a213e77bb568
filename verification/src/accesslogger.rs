//! The line the server logs for each request.
use vstd::prelude::*;
use crate::text::{decimal, decimal_string, push_char};

verus! {

/// `s` followed by spaces up to `width` characters (`{:<width}`).
pub open spec fn pad_right(s: Seq<char>, width: nat) -> Seq<char> {
    if s.len() >= width {
        s
    } else {
        s + Seq::new((width - s.len()) as nat, |i: int| ' ')
    }
}

/// Appends `s` padded with spaces to `width` characters.
fn push_padded(out: &mut String, s: &str, width: usize)
    ensures
        final(out)@ == old(out)@ + pad_right(s@, width as nat),
{
    out.append(s);
    let n = s.unicode_len();
    let mut k: usize = n;
    while k < width
        invariant
            n == s@.len(),
            n <= k,
            k < width ==> out@ == old(out)@ + s@ + Seq::new((k - n) as nat, |i: int| ' '),
            k >= width ==> out@ == old(out)@ + pad_right(s@, width as nat),
            k == n ==> out@ == old(out)@ + s@,
        decreases width - k,
    {
        let ghost before = out@;
        push_char(out, ' ');
        proof {
            if k == n {
                assert(out@ =~= old(out)@ + s@ + Seq::new(1, |i: int| ' '));
            } else {
                assert(out@ =~= old(out)@ + s@ + Seq::new((k + 1 - n) as nat, |i: int| ' '));
            }
            if k + 1 >= width {
                assert(out@ =~= old(out)@ + pad_right(s@, width as nat));
            }
        }
        k += 1;
    }
    proof {
        if n >= width {
            assert(out@ =~= old(out)@ + pad_right(s@, width as nat));
        }
    }
}

/// The log line of a request: the client's address, the answer's status,
/// the method and the path with its query (`/` when it has none), as
/// `{:<16} {:<4} - {:<6} {}`.
pub open spec fn log_line_of(ip: Seq<char>, status: u16, method: Seq<char>, path: Option<Seq<char>>) -> Seq<char> {
    pad_right(ip, 16) + " "@ + pad_right(decimal(status as nat), 4) + " - "@ + pad_right(method, 6) + " "@
        + match path {
            Some(p) => p,
            None => "/"@,
        }
}

/// The log line of a request (see [`log_line_of`]).
pub fn access_log_line(ip: &str, status: u16, method: &str, path: Option<String>) -> (line: String)
    ensures
        line@ == log_line_of(ip@, status, method@, path.deep_view()),
{
    let mut line = String::new();
    push_padded(&mut line, ip, 16);
    line.append(" ");
    let code = decimal_string(status as u64);
    push_padded(&mut line, code.as_str(), 4);
    line.append(" - ");
    push_padded(&mut line, method, 6);
    line.append(" ");
    match path {
        Some(p) => line.append(p.as_str()),
        None => line.append("/"),
    }
    line
}

} // verus!
