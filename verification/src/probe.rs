use vstd::prelude::*;
use crate::errors::Error;
use crate::text::{
    chars_to_string, extend_chars, filter_nonempty, has_prefix, nonempty_tokens, split_chars,
    split_on, split_space, split_space_chars, starts_with, str_to_chars, trim, trim_chars,
};

verus! {

/// A decimal digit.
pub open spec fn is_digit(c: char) -> bool {
    '0' <= c && c <= '9'
}

/// A latency figure as the reachability operation prints it: digits with
/// possible decimal points, at least one digit.
pub open spec fn is_decimal(s: Seq<char>) -> bool {
    &&& forall|i: int| 0 <= i < s.len() ==> is_digit(s[i]) || s[i] == '.'
    &&& exists|i: int| 0 <= i < s.len() && is_digit(s[i])
}

/// A latency figure that denotes exactly zero.
pub open spec fn is_zero_decimal(s: Seq<char>) -> bool {
    is_decimal(s) && forall|i: int| 0 <= i < s.len() ==> s[i] == '0' || s[i] == '.'
}

/// The first line of `lines` that carries the round-trip-time summary.
pub open spec fn first_rtt_line(lines: Seq<Seq<char>>) -> Option<Seq<char>>
    decreases lines.len(),
{
    if lines.len() == 0 {
        None
    } else if starts_with(lines[0], "rtt "@) {
        Some(lines[0])
    } else {
        first_rtt_line(lines.skip(1))
    }
}

proof fn lemma_first_rtt_line_skip(lines: Seq<Seq<char>>, k: int)
    requires
        0 <= k <= lines.len(),
        forall|j: int| 0 <= j < k ==> !starts_with(lines[j], "rtt "@),
    ensures
        first_rtt_line(lines) == first_rtt_line(lines.skip(k)),
    decreases k,
{
    if k > 0 {
        assert(lines.skip(1).skip(k - 1) =~= lines.skip(k));
        lemma_first_rtt_line_skip(lines.skip(1), k - 1);
    } else {
        assert(lines.skip(0) =~= lines);
    }
}

/// The average the round-trip-time summary reports: in a line of the form
/// `rtt min/avg/max/mdev = a/b/c/d <unit>`, the second of the four
/// slash-separated numbers in the fourth space-separated field.
pub open spec fn ping_average(s: Seq<char>) -> Option<Seq<char>> {
    match first_rtt_line(split_on(s, '\n')) {
        Some(line) => {
            let toks = split_on(line, ' ');
            if toks.len() <= 3 {
                None
            } else {
                let fields = split_on(toks[3], '/');
                if fields.len() <= 1 {
                    None
                } else {
                    Some(fields[1])
                }
            }
        },
        None => None,
    }
}

/// Whether a reported average is a usable latency: a decimal figure other
/// than exactly zero.  Anything else means the host was not reached.
pub open spec fn usable_latency(avg: Option<Seq<char>>) -> bool {
    match avg {
        Some(a) => is_decimal(a) && !is_zero_decimal(a),
        None => false,
    }
}

fn classify_latency(tok: &Vec<char>) -> (r: (bool, bool))
    ensures
        r.0 == is_decimal(tok@),
        r.1 == is_zero_decimal(tok@),
{
    let n = tok.len();
    let mut all_numeric = true;
    let mut has_digit = false;
    let mut has_nonzero = false;
    let mut i: usize = 0;
    while i < n
        invariant
            0 <= i <= n == tok@.len(),
            all_numeric == forall|j: int| 0 <= j < i ==> is_digit(tok@[j]) || tok@[j] == '.',
            has_digit == exists|j: int| 0 <= j < i && is_digit(tok@[j]),
            has_nonzero == exists|j: int| 0 <= j < i && !(tok@[j] == '0' || tok@[j] == '.'),
        decreases n - i,
    {
        let c = tok[i];
        if !(('0' <= c && c <= '9') || c == '.') {
            all_numeric = false;
        }
        if '0' <= c && c <= '9' {
            has_digit = true;
        }
        if !(c == '0' || c == '.') {
            has_nonzero = true;
        }
        i = i + 1;
    }
    let dec = all_numeric && has_digit;
    (dec, dec && !has_nonzero)
}

/// Interprets the captured output of the latency probe.  The average from
/// the round-trip-time summary is returned as printed; a missing or
/// malformed summary, or an average of exactly zero, means the host is
/// unreachable and is an error, never a zero-latency success.
pub fn ping(output: &str) -> (r: Result<String, Error>)
    ensures
        match r {
            Ok(avg) => ping_average(output@) == Some(avg@) && usable_latency(ping_average(
                output@,
            )),
            Err(e) => e is HostUnreachable && !usable_latency(ping_average(output@)),
        },
{
    let chars = str_to_chars(output);
    let lines = split_chars(&chars, '\n');
    let n = lines.len();
    let mut idx: usize = 0;
    let mut found = false;
    while idx < n && !found
        invariant
            0 <= idx <= n == lines@.len(),
            lines.deep_view() == split_on(output@, '\n'),
            forall|j: int| 0 <= j < idx ==> !starts_with(lines.deep_view()[j], "rtt "@),
            found ==> idx < n && starts_with(lines.deep_view()[idx as int], "rtt "@),
        decreases n - idx + if found {
            0int
        } else {
            1int
        },
    {
        proof {
            assert(lines@[idx as int].deep_view() =~= lines@[idx as int]@);
        }
        if has_prefix(&lines[idx], "rtt ") {
            found = true;
        } else {
            idx = idx + 1;
        }
    }
    proof {
        lemma_first_rtt_line_skip(lines.deep_view(), idx as int);
    }
    if !found {
        proof {
            assert(lines.deep_view().skip(idx as int) =~= Seq::<Seq<char>>::empty());
        }
        return Err(Error::HostUnreachable);
    }
    let line = &lines[idx];
    proof {
        assert(lines.deep_view().skip(idx as int)[0] == lines.deep_view()[idx as int]);
        assert(first_rtt_line(lines.deep_view().skip(idx as int)) == Some(
            lines.deep_view()[idx as int],
        ));
        assert(line@ =~= lines.deep_view()[idx as int]);
    }
    let toks = split_chars(line, ' ');
    if toks.len() <= 3 {
        return Err(Error::HostUnreachable);
    }
    let field = &toks[3];
    proof {
        assert(field@ =~= toks.deep_view()[3]);
    }
    let fields = split_chars(field, '/');
    if fields.len() <= 1 {
        return Err(Error::HostUnreachable);
    }
    let avg = &fields[1];
    proof {
        assert(avg@ =~= fields.deep_view()[1]);
    }
    let (dec, zero) = classify_latency(avg);
    if !dec || zero {
        return Err(Error::HostUnreachable);
    }
    Ok(chars_to_string(avg))
}

/// The verdict of the port probe: the last three whitespace-separated
/// tokens of the captured output (a human-readable open/closed/filtered
/// phrase), or the whole trimmed output if it has fewer than three tokens.
pub open spec fn port_status(s: Seq<char>) -> Seq<char> {
    let toks = nonempty_tokens(split_space(s));
    if toks.len() >= 3 {
        toks[toks.len() - 3] + seq![' '] + toks[toks.len() - 2] + seq![' '] + toks[toks.len() - 1]
    } else {
        trim(s)
    }
}

/// Interprets the captured output of the port probe.
pub fn port(output: &str) -> (r: String)
    ensures
        r@ == port_status(output@),
{
    let chars = str_to_chars(output);
    let parts = split_space_chars(&chars);
    let toks = filter_nonempty(parts);
    let n = toks.len();
    if n >= 3 {
        let mut v: Vec<char> = Vec::new();
        extend_chars(&mut v, &toks[n - 3]);
        v.push(' ');
        extend_chars(&mut v, &toks[n - 2]);
        v.push(' ');
        extend_chars(&mut v, &toks[n - 1]);
        proof {
            let tv = toks.deep_view();
            assert(toks@[n - 3]@ =~= tv[n - 3]);
            assert(toks@[n - 2]@ =~= tv[n - 2]);
            assert(toks@[n - 1]@ =~= tv[n - 1]);
            assert(v@ =~= tv[n - 3] + seq![' '] + tv[n - 2] + seq![' '] + tv[n - 1]);
        }
        chars_to_string(&v)
    } else {
        let t = trim_chars(&chars);
        chars_to_string(&t)
    }
}

} // verus!
