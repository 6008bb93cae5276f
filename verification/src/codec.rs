use vstd::prelude::*;
use crate::text::{chars_to_string, extend_chars, starts_with, str_to_chars};

verus! {

// The profile store and the environment snapshot persist flat records of
// string fields in a canonical structured text: one field per line, each
// a quoted name and a quoted, escaped value.  The store reads back the
// canonical form it writes; anything else fails to decode.

/// How one character is carried inside a quoted value: the quote, the
/// backslash and the common control characters are escaped, everything
/// else stands for itself.
pub open spec fn escape_char(c: char) -> Seq<char> {
    if c == '"' {
        seq!['\\', '"']
    } else if c == '\\' {
        seq!['\\', '\\']
    } else if c == '\n' {
        seq!['\\', 'n']
    } else if c == '\r' {
        seq!['\\', 'r']
    } else if c == '\t' {
        seq!['\\', 't']
    } else {
        seq![c]
    }
}

/// A value as it stands between its quotes: each character escaped.
pub open spec fn escape_str(s: Seq<char>) -> Seq<char>
    decreases s.len(),
{
    if s.len() == 0 {
        Seq::empty()
    } else {
        escape_char(s[0]) + escape_str(s.skip(1))
    }
}

/// Extending a value by one character appends that character's escape.
pub proof fn lemma_escape_str_push(s: Seq<char>, c: char)
    ensures
        escape_str(s.push(c)) == escape_str(s) + escape_char(c),
    decreases s.len(),
{
    if s.len() == 0 {
        assert(s.push(c)[0] == c);
        assert(s.push(c).skip(1) =~= Seq::<char>::empty());
        assert(escape_str(Seq::<char>::empty()) == Seq::<char>::empty());
        assert(escape_str(s.push(c)) == escape_char(c) + Seq::<char>::empty());
        assert(escape_str(s.push(c)) =~= escape_str(s) + escape_char(c));
    } else {
        assert(s.push(c).skip(1) =~= s.skip(1).push(c));
        lemma_escape_str_push(s.skip(1), c);
        assert(s.push(c)[0] == s[0]);
        assert(escape_str(s.push(c)) == escape_char(s[0]) + (escape_str(s.skip(1)) + escape_char(
            c,
        )));
        assert(escape_char(s[0]) + (escape_str(s.skip(1)) + escape_char(c)) =~= (escape_char(s[0])
            + escape_str(s.skip(1))) + escape_char(c));
    }
}

/// The character an escape pair denotes, if the pair is one this codec
/// writes.
pub open spec fn unescape_char(e: char) -> Option<char> {
    if e == '"' {
        Some('"')
    } else if e == '\\' {
        Some('\\')
    } else if e == 'n' {
        Some('\n')
    } else if e == 'r' {
        Some('\r')
    } else if e == 't' {
        Some('\t')
    } else {
        None
    }
}

/// Reads a quoted value from the front of `s` (the opening quote already
/// consumed): the decoded value and what follows the closing quote.
pub open spec fn scan_string(s: Seq<char>) -> Option<(Seq<char>, Seq<char>)>
    decreases s.len(),
{
    if s.len() == 0 {
        None
    } else if s[0] == '"' {
        Some((Seq::empty(), s.skip(1)))
    } else if s[0] == '\\' {
        if s.len() < 2 {
            None
        } else {
            match unescape_char(s[1]) {
                Some(u) => match scan_string(s.skip(2)) {
                    Some(p) => Some((seq![u] + p.0, p.1)),
                    None => None,
                },
                None => None,
            }
        }
    } else {
        match scan_string(s.skip(1)) {
            Some(p) => Some((seq![s[0]] + p.0, p.1)),
            None => None,
        }
    }
}

/// Scanning what the escape of `f` writes, a closing quote and `rest`
/// yields exactly `f` and `rest` back.
pub proof fn lemma_scan_string_round(f: Seq<char>, rest: Seq<char>)
    ensures
        scan_string(escape_str(f) + seq!['"'] + rest) == Some((f, rest)),
    decreases f.len(),
{
    let s = escape_str(f) + seq!['"'] + rest;
    if f.len() == 0 {
        assert(escape_str(f) == Seq::<char>::empty());
        assert(s =~= seq!['"'] + rest);
        assert(s[0] == '"');
        assert(s.skip(1) =~= rest);
    } else {
        let c = f[0];
        let tail = escape_str(f.skip(1)) + seq!['"'] + rest;
        assert(escape_str(f) == escape_char(c) + escape_str(f.skip(1)));
        lemma_scan_string_round(f.skip(1), rest);
        if c == '"' || c == '\\' || c == '\n' || c == '\r' || c == '\t' {
            assert(escape_char(c).len() == 2);
            assert(s =~= escape_char(c) + tail);
            assert(s[0] == escape_char(c)[0] && s[0] == '\\');
            assert(s[1] == escape_char(c)[1]);
            assert(unescape_char(s[1]) == Some(c));
            assert(s.skip(2) =~= tail);
            assert(scan_string(s) == Some((seq![c] + f.skip(1), rest)));
            assert(seq![c] + f.skip(1) =~= f);
        } else {
            assert(escape_char(c) == seq![c]);
            assert(s =~= seq![c] + tail);
            assert(s[0] == c);
            assert(s[0] != '"' && s[0] != '\\');
            assert(s.skip(1) =~= tail);
            assert(scan_string(s) == Some((seq![c] + f.skip(1), rest)));
            assert(seq![c] + f.skip(1) =~= f);
        }
    }
}

/// Escapes every character of `v`.
pub fn escape_chars(v: &Vec<char>) -> (r: Vec<char>)
    ensures
        r@ == escape_str(v@),
{
    let n = v.len();
    let mut r: Vec<char> = Vec::new();
    let mut i: usize = 0;
    while i < n
        invariant
            0 <= i <= n == v@.len(),
            r@ == escape_str(v@.take(i as int)),
        decreases n - i,
    {
        let c = v[i];
        if c == '"' {
            r.push('\\');
            r.push('"');
        } else if c == '\\' {
            r.push('\\');
            r.push('\\');
        } else if c == '\n' {
            r.push('\\');
            r.push('n');
        } else if c == '\r' {
            r.push('\\');
            r.push('r');
        } else if c == '\t' {
            r.push('\\');
            r.push('t');
        } else {
            r.push(c);
        }
        proof {
            lemma_escape_str_push(v@.take(i as int), v@[i as int]);
            assert(v@.take(i as int).push(v@[i as int]) =~= v@.take(i + 1));
            assert(r@ =~= escape_str(v@.take(i as int)) + escape_char(v@[i as int]));
        }
        i = i + 1;
    }
    proof {
        assert(v@.take(n as int) =~= v@);
    }
    r
}

/// `o` with `prefix` prepended to the value it may carry.
pub open spec fn prepend_scan(prefix: Seq<char>, o: Option<(Seq<char>, Seq<char>)>) -> Option<
    (Seq<char>, Seq<char>),
> {
    match o {
        Some(p) => Some((prefix + p.0, p.1)),
        None => None,
    }
}

proof fn lemma_prepend_compose(a: Seq<char>, b: Seq<char>, o: Option<(Seq<char>, Seq<char>)>)
    ensures
        prepend_scan(a, prepend_scan(b, o)) == prepend_scan(a + b, o),
{
    match o {
        Some(p) => {
            assert(a + (b + p.0) =~= (a + b) + p.0);
        },
        None => {},
    }
}

/// Reads the quoted value that starts at `pos` (opening quote already
/// consumed) out of `s`: the decoded value and the position just past the
/// closing quote.
pub fn parse_string_at(s: &Vec<char>, pos: usize) -> (r: Option<(Vec<char>, usize)>)
    requires
        pos <= s@.len(),
    ensures
        match r {
            Some(p) => pos <= p.1 <= s@.len() && scan_string(s@.skip(pos as int)) == Some(
                (p.0@, s@.skip(p.1 as int)),
            ),
            None => scan_string(s@.skip(pos as int)) is None,
        },
{
    let n = s.len();
    let mut out: Vec<char> = Vec::new();
    let mut i: usize = pos;
    proof {
        assert(prepend_scan(out@, scan_string(s@.skip(pos as int))) == scan_string(
            s@.skip(pos as int),
        )) by {
            match scan_string(s@.skip(pos as int)) {
                Some(p) => {
                    assert(Seq::<char>::empty() + p.0 =~= p.0);
                },
                None => {},
            }
        }
    }
    while i < n
        invariant
            pos <= i <= n == s@.len(),
            scan_string(s@.skip(pos as int)) == prepend_scan(out@, scan_string(s@.skip(i as int))),
        decreases n - i,
    {
        let ghost rem = s@.skip(i as int);
        proof {
            assert(rem.len() == n - i);
            assert(rem[0] == s@[i as int]);
        }
        let c = s[i];
        if c == '"' {
            proof {
                assert(rem.skip(1) =~= s@.skip(i + 1));
                assert(scan_string(rem) == Some((Seq::<char>::empty(), s@.skip(i + 1))));
                assert(out@ + Seq::<char>::empty() =~= out@);
            }
            return Some((out, i + 1));
        } else if c == '\\' {
            if i + 1 >= n {
                proof {
                    assert(rem.len() < 2);
                    assert(scan_string(rem) is None);
                }
                return None;
            }
            let e = s[i + 1];
            proof {
                assert(rem[1] == s@[i + 1]);
            }
            let u_opt: Option<char> = if e == '"' {
                Some('"')
            } else if e == '\\' {
                Some('\\')
            } else if e == 'n' {
                Some('\n')
            } else if e == 'r' {
                Some('\r')
            } else if e == 't' {
                Some('\t')
            } else {
                None
            };
            proof {
                assert(u_opt == unescape_char(e));
            }
            match u_opt {
                Some(u) => {
                    let ghost old_out = out@;
                    out.push(u);
                    proof {
                        assert(rem.skip(2) =~= s@.skip(i + 2));
                        assert(scan_string(rem) == prepend_scan(
                            seq![u],
                            scan_string(s@.skip(i + 2)),
                        ));
                        lemma_prepend_compose(old_out, seq![u], scan_string(s@.skip(i + 2)));
                        assert(old_out + seq![u] =~= out@);
                    }
                    i = i + 2;
                },
                None => {
                    proof {
                        assert(scan_string(rem) is None);
                    }
                    return None;
                },
            }
        } else {
            let ghost old_out = out@;
            out.push(c);
            proof {
                assert(rem.skip(1) =~= s@.skip(i + 1));
                assert(scan_string(rem) == prepend_scan(seq![c], scan_string(s@.skip(i + 1))));
                lemma_prepend_compose(old_out, seq![c], scan_string(s@.skip(i + 1)));
                assert(old_out + seq![c] =~= out@);
            }
            i = i + 1;
        }
    }
    proof {
        assert(s@.skip(i as int).len() == 0);
        assert(scan_string(s@.skip(i as int)) is None);
    }
    None
}

/// What introduces a field's value in the record text: the indentation,
/// the quoted field name, the separator and the value's opening quote.
pub open spec fn field_label(name: Seq<char>) -> Seq<char> {
    seq![' ', ' ', '"'] + name + seq!['"', ':', ' ', '"']
}

/// One field line: its label, the escaped value and the closing quote.
pub open spec fn encode_field(name: Seq<char>, value: Seq<char>) -> Seq<char> {
    field_label(name) + escape_str(value) + seq!['"']
}

/// Every field after the first, each preceded by the line separator.
pub open spec fn encode_rest(names: Seq<Seq<char>>, values: Seq<Seq<char>>) -> Seq<char>
    decreases names.len(),
{
    if names.len() == 0 {
        Seq::empty()
    } else {
        seq![',', '\n'] + encode_field(names[0], values[0]) + encode_rest(
            names.skip(1),
            values.skip(1),
        )
    }
}

/// All field lines, separated.
pub open spec fn encode_fields(names: Seq<Seq<char>>, values: Seq<Seq<char>>) -> Seq<char> {
    if names.len() == 0 {
        Seq::empty()
    } else {
        encode_field(names[0], values[0]) + encode_rest(names.skip(1), values.skip(1))
    }
}

/// The canonical text of a whole record: the field lines between the
/// opening and closing braces.
pub open spec fn record_text(names: Seq<Seq<char>>, values: Seq<Seq<char>>) -> Seq<char> {
    seq!['{', '\n'] + encode_fields(names, values) + seq!['\n', '}']
}

/// Consumes `lit` from the front of `s`.
pub open spec fn scan_literal(s: Seq<char>, lit: Seq<char>) -> Option<Seq<char>> {
    if starts_with(s, lit) {
        Some(s.skip(lit.len() as int))
    } else {
        None
    }
}

/// Reads one field of the given name from the front of `s`.
pub open spec fn scan_field(s: Seq<char>, name: Seq<char>) -> Option<(Seq<char>, Seq<char>)> {
    match scan_literal(s, field_label(name)) {
        Some(s1) => scan_string(s1),
        None => None,
    }
}

/// `o` with `prefix` prepended to the values it may carry.
pub open spec fn prepend_vals(prefix: Seq<Seq<char>>, o: Option<(Seq<Seq<char>>, Seq<char>)>) -> Option<
    (Seq<Seq<char>>, Seq<char>),
> {
    match o {
        Some(p) => Some((prefix + p.0, p.1)),
        None => None,
    }
}

/// Reads the remaining fields, each preceded by the line separator.
pub open spec fn scan_rest(s: Seq<char>, names: Seq<Seq<char>>) -> Option<
    (Seq<Seq<char>>, Seq<char>),
>
    decreases names.len(),
{
    if names.len() == 0 {
        Some((Seq::empty(), s))
    } else {
        match scan_literal(s, seq![',', '\n']) {
            Some(s1) => match scan_field(s1, names[0]) {
                Some(p) => prepend_vals(seq![p.0], scan_rest(p.1, names.skip(1))),
                None => None,
            },
            None => None,
        }
    }
}

/// Reads all fields in order.
pub open spec fn scan_fields(s: Seq<char>, names: Seq<Seq<char>>) -> Option<
    (Seq<Seq<char>>, Seq<char>),
>
    decreases names.len(),
{
    if names.len() == 0 {
        Some((Seq::empty(), s))
    } else {
        match scan_field(s, names[0]) {
            Some(p) => prepend_vals(seq![p.0], scan_rest(p.1, names.skip(1))),
            None => None,
        }
    }
}

/// The field values of a canonical record with the given field names, or
/// nothing when `s` is not such a record.
pub open spec fn parse_record_text(s: Seq<char>, names: Seq<Seq<char>>) -> Option<Seq<Seq<char>>> {
    match scan_literal(s, seq!['{', '\n']) {
        Some(s1) => match scan_fields(s1, names) {
            Some(p) => if p.1 == seq!['\n', '}'] {
                Some(p.0)
            } else {
                None
            },
            None => None,
        },
        None => None,
    }
}

proof fn lemma_scan_literal_round(lit: Seq<char>, x: Seq<char>)
    ensures
        scan_literal(lit + x, lit) == Some(x),
{
    assert((lit + x).take(lit.len() as int) =~= lit);
    assert((lit + x).skip(lit.len() as int) =~= x);
}

proof fn lemma_scan_field_round(name: Seq<char>, value: Seq<char>, rest: Seq<char>)
    ensures
        scan_field(encode_field(name, value) + rest, name) == Some((value, rest)),
{
    let x = escape_str(value) + seq!['"'] + rest;
    assert(encode_field(name, value) + rest =~= field_label(name) + x);
    lemma_scan_literal_round(field_label(name), x);
    lemma_scan_string_round(value, rest);
}

proof fn lemma_scan_rest_round(names: Seq<Seq<char>>, values: Seq<Seq<char>>, rest: Seq<char>)
    requires
        names.len() == values.len(),
    ensures
        scan_rest(encode_rest(names, values) + rest, names) == Some((values, rest)),
    decreases names.len(),
{
    if names.len() == 0 {
        assert(encode_rest(names, values) + rest =~= rest);
        assert(values =~= Seq::<Seq<char>>::empty());
    } else {
        let s = encode_rest(names, values) + rest;
        let after_comma = encode_field(names[0], values[0]) + (encode_rest(
            names.skip(1),
            values.skip(1),
        ) + rest);
        assert(s =~= seq![',', '\n'] + after_comma);
        lemma_scan_literal_round(seq![',', '\n'], after_comma);
        assert(after_comma =~= encode_field(names[0], values[0]) + (encode_rest(
            names.skip(1),
            values.skip(1),
        ) + rest));
        lemma_scan_field_round(names[0], values[0], encode_rest(names.skip(1), values.skip(1))
            + rest);
        lemma_scan_rest_round(names.skip(1), values.skip(1), rest);
        assert(scan_rest(s, names) == Some((seq![values[0]] + values.skip(1), rest)));
        assert(seq![values[0]] + values.skip(1) =~= values);
    }
}

proof fn lemma_scan_fields_round(names: Seq<Seq<char>>, values: Seq<Seq<char>>, rest: Seq<char>)
    requires
        names.len() == values.len(),
    ensures
        scan_fields(encode_fields(names, values) + rest, names) == Some((values, rest)),
{
    if names.len() == 0 {
        assert(encode_fields(names, values) + rest =~= rest);
        assert(values =~= Seq::<Seq<char>>::empty());
    } else {
        let s = encode_fields(names, values) + rest;
        assert(s =~= encode_field(names[0], values[0]) + (encode_rest(
            names.skip(1),
            values.skip(1),
        ) + rest));
        lemma_scan_field_round(names[0], values[0], encode_rest(names.skip(1), values.skip(1))
            + rest);
        lemma_scan_rest_round(names.skip(1), values.skip(1), rest);
        assert(scan_fields(s, names) == Some((seq![values[0]] + values.skip(1), rest)));
        assert(seq![values[0]] + values.skip(1) =~= values);
    }
}

/// A canonical record decodes to exactly the values it was written from:
/// the round trip at the record level.
pub proof fn lemma_parse_record_round(names: Seq<Seq<char>>, values: Seq<Seq<char>>)
    requires
        names.len() == values.len(),
    ensures
        parse_record_text(record_text(names, values), names) == Some(values),
{
    let s = record_text(names, values);
    let x = encode_fields(names, values) + seq!['\n', '}'];
    assert(s =~= seq!['{', '\n'] + x);
    lemma_scan_literal_round(seq!['{', '\n'], x);
    lemma_scan_fields_round(names, values, seq!['\n', '}']);
}

proof fn lemma_encode_rest_push(
    names: Seq<Seq<char>>,
    values: Seq<Seq<char>>,
    n2: Seq<char>,
    v2: Seq<char>,
)
    requires
        names.len() == values.len(),
    ensures
        encode_rest(names.push(n2), values.push(v2)) == encode_rest(names, values) + (seq![
            ',',
            '\n',
        ] + encode_field(n2, v2)),
    decreases names.len(),
{
    if names.len() == 0 {
        assert(names.push(n2)[0] == n2);
        assert(values.push(v2)[0] == v2);
        assert(names.push(n2).skip(1) =~= Seq::<Seq<char>>::empty());
        assert(values.push(v2).skip(1) =~= Seq::<Seq<char>>::empty());
        assert(encode_rest(
            Seq::<Seq<char>>::empty(),
            Seq::<Seq<char>>::empty(),
        ) == Seq::<char>::empty());
        assert(encode_rest(names.push(n2), values.push(v2)) =~= encode_rest(names, values) + (seq![
            ',',
            '\n',
        ] + encode_field(n2, v2)));
    } else {
        assert(names.push(n2).skip(1) =~= names.skip(1).push(n2));
        assert(values.push(v2).skip(1) =~= values.skip(1).push(v2));
        lemma_encode_rest_push(names.skip(1), values.skip(1), n2, v2);
        assert(names.push(n2)[0] == names[0]);
        assert(values.push(v2)[0] == values[0]);
        assert(encode_rest(names.push(n2), values.push(v2)) == seq![',', '\n'] + encode_field(
            names[0],
            values[0],
        ) + (encode_rest(names.skip(1), values.skip(1)) + (seq![',', '\n'] + encode_field(
            n2,
            v2,
        ))));
        assert(seq![',', '\n'] + encode_field(names[0], values[0]) + (encode_rest(
            names.skip(1),
            values.skip(1),
        ) + (seq![',', '\n'] + encode_field(n2, v2))) =~= encode_rest(names, values) + (seq![
            ',',
            '\n',
        ] + encode_field(n2, v2)));
    }
}

proof fn lemma_encode_fields_push(
    names: Seq<Seq<char>>,
    values: Seq<Seq<char>>,
    n2: Seq<char>,
    v2: Seq<char>,
)
    requires
        names.len() == values.len(),
    ensures
        names.len() == 0 ==> encode_fields(names.push(n2), values.push(v2)) == encode_field(
            n2,
            v2,
        ),
        names.len() > 0 ==> encode_fields(names.push(n2), values.push(v2)) == encode_fields(
            names,
            values,
        ) + (seq![',', '\n'] + encode_field(n2, v2)),
{
    if names.len() == 0 {
        assert(names.push(n2)[0] == n2);
        assert(values.push(v2)[0] == v2);
        assert(names.push(n2).skip(1) =~= Seq::<Seq<char>>::empty());
        assert(values.push(v2).skip(1) =~= Seq::<Seq<char>>::empty());
        assert(encode_rest(
            Seq::<Seq<char>>::empty(),
            Seq::<Seq<char>>::empty(),
        ) == Seq::<char>::empty());
        assert(encode_fields(names.push(n2), values.push(v2)) =~= encode_field(n2, v2));
    } else {
        assert(names.push(n2).skip(1) =~= names.skip(1).push(n2));
        assert(values.push(v2).skip(1) =~= values.skip(1).push(v2));
        lemma_encode_rest_push(names.skip(1), values.skip(1), n2, v2);
        assert(names.push(n2)[0] == names[0]);
        assert(values.push(v2)[0] == values[0]);
        assert(encode_fields(names.push(n2), values.push(v2)) == encode_field(names[0], values[0])
            + (encode_rest(names.skip(1), values.skip(1)) + (seq![',', '\n'] + encode_field(
            n2,
            v2,
        ))));
        assert(encode_field(names[0], values[0]) + (encode_rest(names.skip(1), values.skip(1)) + (
        seq![',', '\n'] + encode_field(n2, v2))) =~= encode_fields(names, values) + (seq![
            ',',
            '\n',
        ] + encode_field(n2, v2)));
    }
}

fn emit_field(acc: &mut Vec<char>, name: &String, value: &String)
    ensures
        final(acc)@ == old(acc)@ + encode_field(name@, value@),
{
    acc.push(' ');
    acc.push(' ');
    acc.push('"');
    let nchars = str_to_chars(name.as_str());
    extend_chars(acc, &nchars);
    acc.push('"');
    acc.push(':');
    acc.push(' ');
    acc.push('"');
    let vchars = str_to_chars(value.as_str());
    let esc = escape_chars(&vchars);
    extend_chars(acc, &esc);
    acc.push('"');
    proof {
        assert(acc@ =~= old(acc)@ + encode_field(name@, value@));
    }
}

/// Writes the canonical record text for the given field names and values.
pub fn encode_record(names: &Vec<String>, values: &Vec<String>) -> (r: String)
    requires
        names@.len() == values@.len(),
    ensures
        r@ == record_text(names.deep_view(), values.deep_view()),
{
    let ghost nd = names.deep_view();
    let ghost vd = values.deep_view();
    let n = names.len();
    let mut acc: Vec<char> = Vec::new();
    acc.push('{');
    acc.push('\n');
    proof {
        assert(nd.take(0) =~= Seq::<Seq<char>>::empty());
        assert(vd.take(0) =~= Seq::<Seq<char>>::empty());
        assert(acc@ =~= seq!['{', '\n'] + encode_fields(nd.take(0), vd.take(0)));
    }
    let mut i: usize = 0;
    while i < n
        invariant
            0 <= i <= n == names@.len() && n == values@.len(),
            nd == names.deep_view(),
            vd == values.deep_view(),
            acc@ == seq!['{', '\n'] + encode_fields(nd.take(i as int), vd.take(i as int)),
        decreases n - i,
    {
        if i > 0 {
            acc.push(',');
            acc.push('\n');
        }
        emit_field(&mut acc, &names[i], &values[i]);
        proof {
            assert(names@[i as int]@ == nd[i as int]);
            assert(values@[i as int]@ == vd[i as int]);
            lemma_encode_fields_push(nd.take(i as int), vd.take(i as int), nd[i as int], vd[
                i as int
            ]);
            assert(nd.take(i as int).push(nd[i as int]) =~= nd.take(i + 1));
            assert(vd.take(i as int).push(vd[i as int]) =~= vd.take(i + 1));
            if i == 0 {
                assert(acc@ =~= seq!['{', '\n'] + encode_fields(nd.take(1), vd.take(1)));
            } else {
                assert(acc@ =~= seq!['{', '\n'] + encode_fields(nd.take(i + 1), vd.take(i + 1)));
            }
        }
        i = i + 1;
    }
    acc.push('\n');
    acc.push('}');
    proof {
        assert(nd.take(n as int) =~= nd);
        assert(vd.take(n as int) =~= vd);
        assert(acc@ =~= record_text(nd, vd));
    }
    chars_to_string(&acc)
}

fn match_at(s: &Vec<char>, pos: usize, lit: &Vec<char>) -> (r: bool)
    requires
        pos <= s@.len(),
    ensures
        r == starts_with(s@.skip(pos as int), lit@),
{
    let m = lit.len();
    let n = s.len();
    if m > n - pos {
        return false;
    }
    let mut j: usize = 0;
    while j < m
        invariant
            0 <= j <= m == lit@.len(),
            pos + m <= n == s@.len(),
            forall|k: int| 0 <= k < j ==> s@[pos + k] == lit@[k],
        decreases m - j,
    {
        if s[pos + j] != lit[j] {
            assert(s@.skip(pos as int).take(m as int)[j as int] != lit@[j as int]);
            return false;
        }
        j = j + 1;
    }
    proof {
        assert(s@.skip(pos as int).take(m as int) =~= lit@);
    }
    true
}

fn label_chars(name: &String) -> (r: Vec<char>)
    ensures
        r@ == field_label(name@),
{
    let mut v: Vec<char> = Vec::new();
    v.push(' ');
    v.push(' ');
    v.push('"');
    let nchars = str_to_chars(name.as_str());
    extend_chars(&mut v, &nchars);
    v.push('"');
    v.push(':');
    v.push(' ');
    v.push('"');
    proof {
        assert(v@ =~= field_label(name@));
    }
    v
}

proof fn lemma_prepend_vals_compose(
    a: Seq<Seq<char>>,
    b: Seq<Seq<char>>,
    o: Option<(Seq<Seq<char>>, Seq<char>)>,
)
    ensures
        prepend_vals(a, prepend_vals(b, o)) == prepend_vals(a + b, o),
{
    match o {
        Some(p) => {
            assert(a + (b + p.0) =~= (a + b) + p.0);
        },
        None => {},
    }
}

/// Reads the field values of a canonical record with the given field
/// names back out of `content`.
pub fn parse_record(content: &str, names: &Vec<String>) -> (r: Option<Vec<String>>)
    requires
        names@.len() > 0,
    ensures
        match r {
            Some(values) => values@.len() == names@.len() && parse_record_text(
                content@,
                names.deep_view(),
            ) == Some(values.deep_view()),
            None => parse_record_text(content@, names.deep_view()) is None,
        },
{
    let ghost nd = names.deep_view();
    let s = str_to_chars(content);
    let slen = s.len();
    proof {
        assert(s@.skip(0) =~= s@);
    }
    let open_lit: Vec<char> = vec!['{', '\n'];
    proof {
        assert(open_lit@ =~= seq!['{', '\n']);
    }
    if !match_at(&s, 0, &open_lit) {
        return None;
    }
    let mut pos: usize = 2;
    proof {
        assert(s@.take(2) =~= open_lit@);
        assert(scan_literal(s@, seq!['{', '\n']) == Some(s@.skip(2)));
    }
    let ghost body = s@.skip(2);
    // First field: no separator before it.
    let lab0 = label_chars(&names[0]);
    if !match_at(&s, pos, &lab0) {
        proof {
            assert(names@[0]@ == nd[0]);
            assert(scan_field(body, nd[0]) is None);
        }
        return None;
    }
    proof {
        assert(lab0@.len() <= s@.skip(2).len());
        assert(pos + lab0@.len() <= slen);
    }
    pos = pos + lab0.len();
    proof {
        assert(s@.skip(2).skip(field_label(nd[0]).len() as int) =~= s@.skip(pos as int));
        assert(scan_literal(body, field_label(nd[0])) == Some(s@.skip(pos as int)));
    }
    let first = parse_string_at(&s, pos);
    let mut values: Vec<String> = Vec::new();
    match first {
        None => {
            proof {
                assert(scan_field(body, nd[0]) is None);
            }
            return None;
        },
        Some(p) => {
            proof {
                assert(scan_field(body, nd[0]) == Some((p.0@, s@.skip(p.1 as int))));
            }
            values.push(chars_to_string(&p.0));
            pos = p.1;
        },
    }
    proof {
        assert(values.deep_view() =~= seq![(scan_field(body, nd[0])->0).0]);
        assert(scan_fields(body, nd) == prepend_vals(
            seq![(scan_field(body, nd[0])->0).0],
            scan_rest(s@.skip(pos as int), nd.skip(1)),
        ));
        assert(scan_fields(body, nd) == prepend_vals(
            values.deep_view(),
            scan_rest(s@.skip(pos as int), nd.skip(1)),
        ));
    }
    let n = names.len();
    let comma_lit: Vec<char> = vec![',', '\n'];
    proof {
        assert(comma_lit@ =~= seq![',', '\n']);
    }
    let mut idx: usize = 1;
    while idx < n
        invariant
            1 <= idx <= n == names@.len(),
            values@.len() == idx,
            pos <= slen == s@.len(),
            s@ == content@,
            nd == names.deep_view(),
            comma_lit@ == seq![',', '\n'],
            body == s@.skip(2),
            scan_literal(s@, seq!['{', '\n']) == Some(body),
            scan_fields(body, nd) == prepend_vals(
                values.deep_view(),
                scan_rest(s@.skip(pos as int), nd.skip(idx as int)),
            ),
        decreases n - idx,
    {
        let ghost rem = s@.skip(pos as int);
        let ghost names_left = nd.skip(idx as int);
        proof {
            assert(names_left.len() > 0);
            assert(names_left[0] == nd[idx as int]);
        }
        if !match_at(&s, pos, &comma_lit) {
            proof {
                assert(scan_rest(rem, names_left) is None);
            }
            return None;
        }
        proof {
            assert(comma_lit@.len() <= rem.len());
        }
        let after_comma = pos + 2;
        proof {
            assert(rem.skip(2) =~= s@.skip(after_comma as int));
            assert(scan_literal(rem, seq![',', '\n']) == Some(s@.skip(after_comma as int)));
        }
        let lab = label_chars(&names[idx]);
        if !match_at(&s, after_comma, &lab) {
            proof {
                assert(names@[idx as int]@ == nd[idx as int]);
                assert(scan_field(s@.skip(after_comma as int), nd[idx as int]) is None);
                assert(scan_rest(rem, names_left) is None);
            }
            return None;
        }
        proof {
            assert(lab@.len() <= s@.skip(after_comma as int).len());
            assert(after_comma + lab@.len() <= slen);
        }
        let after_label = after_comma + lab.len();
        proof {
            assert(names@[idx as int]@ == nd[idx as int]);
            assert(s@.skip(after_comma as int).skip(field_label(nd[idx as int]).len() as int)
                =~= s@.skip(after_label as int));
            assert(scan_literal(s@.skip(after_comma as int), field_label(nd[idx as int])) == Some(
                s@.skip(after_label as int),
            ));
        }
        let parsed = parse_string_at(&s, after_label);
        match parsed {
            None => {
                proof {
                    assert(scan_field(s@.skip(after_comma as int), nd[idx as int]) is None);
                    assert(scan_rest(rem, names_left) is None);
                }
                return None;
            },
            Some(p) => {
                proof {
                    assert(scan_field(s@.skip(after_comma as int), nd[idx as int]) == Some(
                        (p.0@, s@.skip(p.1 as int)),
                    ));
                    assert(scan_rest(rem, names_left) == prepend_vals(
                        seq![p.0@],
                        scan_rest(s@.skip(p.1 as int), names_left.skip(1)),
                    ));
                    assert(names_left.skip(1) =~= nd.skip(idx + 1));
                    lemma_prepend_vals_compose(
                        values.deep_view(),
                        seq![p.0@],
                        scan_rest(s@.skip(p.1 as int), nd.skip(idx + 1)),
                    );
                }
                let ghost old_values = values.deep_view();
                values.push(chars_to_string(&p.0));
                proof {
                    assert(values.deep_view() =~~= old_values + seq![p.0@]);
                }
                pos = p.1;
            },
        }
        idx = idx + 1;
    }
    proof {
        assert(nd.skip(n as int).len() == 0);
        assert(scan_rest(s@.skip(pos as int), nd.skip(n as int)) == Some(
            (Seq::<Seq<char>>::empty(), s@.skip(pos as int)),
        ));
        assert(values.deep_view() + Seq::<Seq<char>>::empty() =~= values.deep_view());
        assert(scan_fields(body, nd) == Some((values.deep_view(), s@.skip(pos as int))));
    }
    if slen - pos != 2 {
        proof {
            assert(s@.skip(pos as int).len() != 2);
            assert(s@.skip(pos as int) != seq!['\n', '}']);
        }
        return None;
    }
    if s[pos] != '\n' || s[pos + 1] != '}' {
        proof {
            assert(s@.skip(pos as int)[0] == s@[pos as int]);
            assert(s@.skip(pos as int)[1] == s@[pos + 1]);
            assert(s@.skip(pos as int) != seq!['\n', '}']);
        }
        return None;
    }
    proof {
        assert(s@.skip(pos as int) =~= seq!['\n', '}']);
    }
    Some(values)
}

} // verus!
