use vstd::prelude::*;
use vstd::string::StrSliceExecFns;

verus! {

/// The whitespace characters recognised when output of an external
/// operation is tokenised or trimmed.
pub open spec fn is_space(c: char) -> bool {
    c == ' ' || c == '\t' || c == '\n' || c == '\r'
}

/// Executable twin of [`is_space`].
pub fn space_char(c: char) -> (r: bool)
    ensures
        r == is_space(c),
{
    c == ' ' || c == '\t' || c == '\n' || c == '\r'
}

/// `s` with leading whitespace removed.
pub open spec fn trim_start(s: Seq<char>) -> Seq<char>
    decreases s.len(),
{
    if s.len() > 0 && is_space(s[0]) {
        trim_start(s.skip(1))
    } else {
        s
    }
}

/// `s` with trailing whitespace removed.
pub open spec fn trim_end(s: Seq<char>) -> Seq<char>
    decreases s.len(),
{
    if s.len() > 0 && is_space(s[s.len() - 1]) {
        trim_end(s.take(s.len() - 1))
    } else {
        s
    }
}

/// `s` with surrounding whitespace removed.
pub open spec fn trim(s: Seq<char>) -> Seq<char> {
    trim_end(trim_start(s))
}

proof fn lemma_trim_start_is_skip(s: Seq<char>, k: int)
    requires
        0 <= k <= s.len(),
        forall|i: int| 0 <= i < k ==> is_space(s[i]),
        k < s.len() ==> !is_space(s[k]),
    ensures
        trim_start(s) == s.skip(k),
    decreases k,
{
    if k == 0 {
        if s.len() > 0 && is_space(s[0]) {
        }
        assert(s.skip(0) =~= s);
    } else {
        lemma_trim_start_is_skip(s.skip(1), k - 1);
        assert(s.skip(1).skip(k - 1) =~= s.skip(k));
    }
}

proof fn lemma_trim_end_is_take(s: Seq<char>, k: int)
    requires
        0 <= k <= s.len(),
        forall|i: int| k <= i < s.len() ==> is_space(s[i]),
        k > 0 ==> !is_space(s[k - 1]),
    ensures
        trim_end(s) == s.take(k),
    decreases s.len() - k,
{
    if k == s.len() {
        if s.len() > 0 && is_space(s[s.len() - 1]) {
            lemma_trim_end_is_take(s.take(s.len() - 1), k - 1);
            assert(s.take(s.len() - 1).take(k - 1) =~= s.take(k - 1));
        } else {
            assert(s.take(k) =~= s);
        }
    } else {
        lemma_trim_end_is_take(s.take(s.len() - 1), k);
        assert(s.take(s.len() - 1).take(k) =~= s.take(k));
    }
}

/// Trims surrounding whitespace from a sequence of characters.
pub fn trim_chars(s: &Vec<char>) -> (r: Vec<char>)
    ensures
        r@ == trim(s@),
{
    let n = s.len();
    let mut start: usize = 0;
    while start < n && space_char(s[start])
        invariant
            0 <= start <= n == s@.len(),
            forall|i: int| 0 <= i < start ==> is_space(s@[i]),
        decreases n - start,
    {
        start = start + 1;
    }
    proof {
        lemma_trim_start_is_skip(s@, start as int);
    }
    let mut end: usize = n;
    while end > start && space_char(s[end - 1])
        invariant
            start <= end <= n == s@.len(),
            forall|i: int| end <= i < n ==> is_space(s@[i]),
        decreases end,
    {
        end = end - 1;
    }
    proof {
        lemma_trim_end_is_take(s@.skip(start as int), end - start as int);
    }
    let mut r: Vec<char> = Vec::new();
    let mut i: usize = start;
    while i < end
        invariant
            start <= i <= end <= s@.len(),
            r@ =~= s@.subrange(start as int, i as int),
        decreases end - i,
    {
        r.push(s[i]);
        i = i + 1;
    }
    proof {
        assert(r@ =~= s@.skip(start as int).take(end - start as int));
    }
    r
}

/// The concatenation of `f` applied to each character of `s`, in order.
pub open spec fn concat_map(s: Seq<char>, f: spec_fn(char) -> Seq<char>) -> Seq<char>
    decreases s.len(),
{
    if s.len() == 0 {
        Seq::empty()
    } else {
        f(s[0]) + concat_map(s.skip(1), f)
    }
}

/// Extending the input of [`concat_map`] by one character appends that
/// character's image.
pub proof fn lemma_concat_map_push(s: Seq<char>, f: spec_fn(char) -> Seq<char>, c: char)
    ensures
        concat_map(s.push(c), f) == concat_map(s, f) + f(c),
    decreases s.len(),
{
    if s.len() == 0 {
        assert(s.push(c)[0] == c);
        assert(s.push(c).skip(1) =~= Seq::<char>::empty());
        assert(concat_map(Seq::<char>::empty(), f) == Seq::<char>::empty());
        assert(concat_map(s.push(c), f) == f(c) + Seq::<char>::empty());
        assert(concat_map(s.push(c), f) =~= concat_map(s, f) + f(c));
    } else {
        assert(s.push(c).skip(1) =~= s.skip(1).push(c));
        lemma_concat_map_push(s.skip(1), f, c);
        assert(s.push(c)[0] == s[0]);
        assert(concat_map(s.push(c), f) == f(s[0]) + (concat_map(s.skip(1), f) + f(c)));
        assert(f(s[0]) + (concat_map(s.skip(1), f) + f(c)) =~= (f(s[0]) + concat_map(
            s.skip(1),
            f,
        )) + f(c));
    }
}

/// The index of the first occurrence of `sep` in `s`, or -1.
pub open spec fn find_sep(s: Seq<char>, sep: char) -> int
    decreases s.len(),
{
    if s.len() == 0 {
        -1
    } else if s[0] == sep {
        0
    } else if find_sep(s.skip(1), sep) < 0 {
        -1
    } else {
        find_sep(s.skip(1), sep) + 1
    }
}

/// The pieces of `s` between occurrences of `sep`, in order.  There is
/// always at least one piece; consecutive separators yield empty pieces.
pub open spec fn split_on(s: Seq<char>, sep: char) -> Seq<Seq<char>>
    decreases s.len(),
{
    let k = find_sep(s, sep);
    if 0 <= k < s.len() {
        seq![s.take(k)] + split_on(s.skip(k + 1), sep)
    } else {
        seq![s]
    }
}

proof fn lemma_find_sep_at(s: Seq<char>, sep: char, k: int)
    requires
        0 <= k < s.len(),
        forall|i: int| 0 <= i < k ==> s[i] != sep,
        s[k] == sep,
    ensures
        find_sep(s, sep) == k,
    decreases k,
{
    if k > 0 {
        lemma_find_sep_at(s.skip(1), sep, k - 1);
    }
}

proof fn lemma_find_sep_none(s: Seq<char>, sep: char)
    requires
        forall|i: int| 0 <= i < s.len() ==> s[i] != sep,
    ensures
        find_sep(s, sep) == -1,
    decreases s.len(),
{
    if s.len() > 0 {
        lemma_find_sep_none(s.skip(1), sep);
    }
}

/// When the first separator of `s` stands at `k`, splitting takes the
/// piece before it and splits the remainder.
pub proof fn lemma_split_on_at(s: Seq<char>, sep: char, k: int)
    requires
        0 <= k < s.len(),
        forall|i: int| 0 <= i < k ==> s[i] != sep,
        s[k] == sep,
    ensures
        split_on(s, sep) == seq![s.take(k)] + split_on(s.skip(k + 1), sep),
{
    lemma_find_sep_at(s, sep, k);
}

/// A sequence without the separator is a single piece.
pub proof fn lemma_split_on_none(s: Seq<char>, sep: char)
    requires
        forall|i: int| 0 <= i < s.len() ==> s[i] != sep,
    ensures
        split_on(s, sep) == seq![s],
{
    lemma_find_sep_none(s, sep);
}

/// The index of the first whitespace character of `s`, or -1.
pub open spec fn find_space(s: Seq<char>) -> int
    decreases s.len(),
{
    if s.len() == 0 {
        -1
    } else if is_space(s[0]) {
        0
    } else if find_space(s.skip(1)) < 0 {
        -1
    } else {
        find_space(s.skip(1)) + 1
    }
}

/// The pieces of `s` between whitespace characters, in order, empty pieces
/// included.
pub open spec fn split_space(s: Seq<char>) -> Seq<Seq<char>>
    decreases s.len(),
{
    let k = find_space(s);
    if 0 <= k < s.len() {
        seq![s.take(k)] + split_space(s.skip(k + 1))
    } else {
        seq![s]
    }
}

proof fn lemma_find_space_at(s: Seq<char>, k: int)
    requires
        0 <= k < s.len(),
        forall|i: int| 0 <= i < k ==> !is_space(s[i]),
        is_space(s[k]),
    ensures
        find_space(s) == k,
    decreases k,
{
    if k > 0 {
        lemma_find_space_at(s.skip(1), k - 1);
    }
}

proof fn lemma_find_space_none(s: Seq<char>)
    requires
        forall|i: int| 0 <= i < s.len() ==> !is_space(s[i]),
    ensures
        find_space(s) == -1,
    decreases s.len(),
{
    if s.len() > 0 {
        lemma_find_space_none(s.skip(1));
    }
}

/// When the first whitespace of `s` stands at `k`, splitting takes the
/// piece before it and splits the remainder.
pub proof fn lemma_split_space_at(s: Seq<char>, k: int)
    requires
        0 <= k < s.len(),
        forall|i: int| 0 <= i < k ==> !is_space(s[i]),
        is_space(s[k]),
    ensures
        split_space(s) == seq![s.take(k)] + split_space(s.skip(k + 1)),
{
    lemma_find_space_at(s, k);
}

/// A sequence without whitespace is a single piece.
pub proof fn lemma_split_space_none(s: Seq<char>)
    requires
        forall|i: int| 0 <= i < s.len() ==> !is_space(s[i]),
    ensures
        split_space(s) == seq![s],
{
    lemma_find_space_none(s);
}

/// The non-empty pieces of `parts`, in order.
pub open spec fn nonempty_tokens(parts: Seq<Seq<char>>) -> Seq<Seq<char>>
    decreases parts.len(),
{
    if parts.len() == 0 {
        Seq::empty()
    } else if parts[0].len() > 0 {
        seq![parts[0]] + nonempty_tokens(parts.skip(1))
    } else {
        nonempty_tokens(parts.skip(1))
    }
}

/// Extending the pieces by one extends the non-empty tokens accordingly.
pub proof fn lemma_nonempty_tokens_push(parts: Seq<Seq<char>>, t: Seq<char>)
    ensures
        nonempty_tokens(parts.push(t)) == if t.len() > 0 {
            nonempty_tokens(parts).push(t)
        } else {
            nonempty_tokens(parts)
        },
    decreases parts.len(),
{
    if parts.len() == 0 {
        assert(parts.push(t)[0] == t);
        assert(parts.push(t).skip(1) =~= Seq::<Seq<char>>::empty());
        assert(nonempty_tokens(Seq::<Seq<char>>::empty()) == Seq::<Seq<char>>::empty());
        if t.len() > 0 {
            assert(nonempty_tokens(parts.push(t)) =~= nonempty_tokens(parts).push(t));
        }
    } else {
        assert(parts.push(t).skip(1) =~= parts.skip(1).push(t));
        lemma_nonempty_tokens_push(parts.skip(1), t);
        assert(parts.push(t)[0] == parts[0]);
        if t.len() > 0 {
            if parts[0].len() > 0 {
                assert(nonempty_tokens(parts.push(t)) == seq![parts[0]] + nonempty_tokens(
                    parts.skip(1),
                ).push(t));
                assert(seq![parts[0]] + nonempty_tokens(parts.skip(1)).push(t) =~= (
                seq![parts[0]] + nonempty_tokens(parts.skip(1))).push(t));
            }
        }
    }
}

/// Whether `p` is a prefix of `s`.
pub open spec fn starts_with(s: Seq<char>, p: Seq<char>) -> bool {
    p.len() <= s.len() && s.take(p.len() as int) == p
}

/// Whether `suffix` ends `s`.
pub open spec fn ends_with(s: Seq<char>, suffix: Seq<char>) -> bool {
    suffix.len() <= s.len() && s.skip(s.len() - suffix.len()) == suffix
}

/// Whether the string `suffix` ends the characters `v`.
pub fn has_suffix(v: &Vec<char>, suffix: &str) -> (r: bool)
    ensures
        r == ends_with(v@, suffix@),
{
    let m = suffix.unicode_len();
    let n = v.len();
    if m > n {
        return false;
    }
    let start = n - m;
    let mut i: usize = 0;
    while i < m
        invariant
            0 <= i <= m == suffix@.len(),
            start == n - m,
            m <= n == v@.len(),
            forall|j: int| 0 <= j < i ==> v@[start + j] == suffix@[j],
        decreases m - i,
    {
        if v[start + i] != suffix.get_char(i) {
            assert(v@.skip(start as int)[i as int] != suffix@[i as int]);
            return false;
        }
        i = i + 1;
    }
    proof {
        assert(v@.skip(start as int) =~= suffix@);
    }
    true
}

/// Whether the string `p` is a prefix of the characters `v`.
pub fn has_prefix(v: &Vec<char>, p: &str) -> (r: bool)
    ensures
        r == starts_with(v@, p@),
{
    let m = p.unicode_len();
    if m > v.len() {
        return false;
    }
    let mut i: usize = 0;
    while i < m
        invariant
            0 <= i <= m == p@.len(),
            m <= v@.len(),
            forall|j: int| 0 <= j < i ==> v@[j] == p@[j],
        decreases m - i,
    {
        if v[i] != p.get_char(i) {
            assert(v@.take(m as int)[i as int] != p@[i as int]);
            return false;
        }
        i = i + 1;
    }
    proof {
        assert(v@.take(m as int) =~= p@);
    }
    true
}

/// The characters of `s` from `a` (inclusive) to `b` (exclusive).
pub fn subvec(s: &Vec<char>, a: usize, b: usize) -> (r: Vec<char>)
    requires
        a <= b <= s@.len(),
    ensures
        r@ == s@.subrange(a as int, b as int),
{
    let mut r: Vec<char> = Vec::new();
    let mut i: usize = a;
    while i < b
        invariant
            a <= i <= b <= s@.len(),
            r@ =~= s@.subrange(a as int, i as int),
        decreases b - i,
    {
        r.push(s[i]);
        i = i + 1;
    }
    r
}

/// Appends every character of `src` to `dst`.
pub fn extend_chars(dst: &mut Vec<char>, src: &Vec<char>)
    ensures
        final(dst)@ == old(dst)@ + src@,
{
    let n = src.len();
    let mut i: usize = 0;
    while i < n
        invariant
            0 <= i <= n == src@.len(),
            dst@ =~= old(dst)@ + src@.take(i as int),
        decreases n - i,
    {
        dst.push(src[i]);
        i = i + 1;
    }
    proof {
        assert(old(dst)@ + src@.take(n as int) =~= old(dst)@ + src@);
    }
}

/// Splits `s` at every occurrence of `sep`.
pub fn split_chars(s: &Vec<char>, sep: char) -> (r: Vec<Vec<char>>)
    ensures
        r.deep_view() == split_on(s@, sep),
{
    let n = s.len();
    let mut r: Vec<Vec<char>> = Vec::new();
    proof {
        assert(s@.skip(0) =~= s@);
        assert(r.deep_view() =~= Seq::<Seq<char>>::empty());
        assert(r.deep_view() + split_on(s@, sep) =~= split_on(s@, sep));
    }
    let mut start: usize = 0;
    let mut i: usize = 0;
    while i < n
        invariant
            0 <= start <= i <= n == s@.len(),
            forall|j: int| start <= j < i ==> s@[j] != sep,
            split_on(s@, sep) == r.deep_view() + split_on(s@.skip(start as int), sep),
        decreases n - i,
    {
        if s[i] == sep {
            let tok = subvec(s, start, i);
            proof {
                let rest = s@.skip(start as int);
                assert(forall|j: int|
                    0 <= j < i - start ==> rest[j] == s@[start + j] && rest[j] != sep);
                assert(rest[i - start as int] == s@[i as int]);
                lemma_split_on_at(rest, sep, i - start as int);
                assert(rest.take(i - start as int) =~= s@.subrange(start as int, i as int));
                assert(rest.skip(i - start + 1) =~= s@.skip(i + 1));
            }
            let ghost old_r = r.deep_view();
            r.push(tok);
            proof {
                assert(r.deep_view() =~~= old_r.push(s@.subrange(start as int, i as int)));
                assert(old_r + (seq![s@.subrange(start as int, i as int)] + split_on(
                    s@.skip(i + 1),
                    sep,
                )) =~= r.deep_view() + split_on(s@.skip(i + 1), sep));
            }
            start = i + 1;
        }
        i = i + 1;
    }
    let tok = subvec(s, start, n);
    proof {
        let rest = s@.skip(start as int);
        assert(forall|j: int| 0 <= j < rest.len() ==> rest[j] == s@[start + j] && rest[j] != sep);
        lemma_split_on_none(rest, sep);
        assert(rest =~= s@.subrange(start as int, n as int));
    }
    let ghost old_r = r.deep_view();
    r.push(tok);
    proof {
        assert(r.deep_view() =~~= old_r.push(s@.subrange(start as int, n as int)));
        assert(old_r + seq![s@.subrange(start as int, n as int)] =~= r.deep_view());
    }
    r
}

/// Splits `s` at every whitespace character.
pub fn split_space_chars(s: &Vec<char>) -> (r: Vec<Vec<char>>)
    ensures
        r.deep_view() == split_space(s@),
{
    let n = s.len();
    let mut r: Vec<Vec<char>> = Vec::new();
    proof {
        assert(s@.skip(0) =~= s@);
        assert(r.deep_view() =~= Seq::<Seq<char>>::empty());
        assert(r.deep_view() + split_space(s@) =~= split_space(s@));
    }
    let mut start: usize = 0;
    let mut i: usize = 0;
    while i < n
        invariant
            0 <= start <= i <= n == s@.len(),
            forall|j: int| start <= j < i ==> !is_space(s@[j]),
            split_space(s@) == r.deep_view() + split_space(s@.skip(start as int)),
        decreases n - i,
    {
        if space_char(s[i]) {
            let tok = subvec(s, start, i);
            proof {
                let rest = s@.skip(start as int);
                assert(forall|j: int|
                    0 <= j < i - start ==> rest[j] == s@[start + j] && !is_space(rest[j]));
                assert(rest[i - start as int] == s@[i as int]);
                lemma_split_space_at(rest, i - start as int);
                assert(rest.take(i - start as int) =~= s@.subrange(start as int, i as int));
                assert(rest.skip(i - start + 1) =~= s@.skip(i + 1));
            }
            let ghost old_r = r.deep_view();
            r.push(tok);
            proof {
                assert(r.deep_view() =~~= old_r.push(s@.subrange(start as int, i as int)));
                assert(old_r + (seq![s@.subrange(start as int, i as int)] + split_space(
                    s@.skip(i + 1),
                )) =~= r.deep_view() + split_space(s@.skip(i + 1)));
            }
            start = i + 1;
        }
        i = i + 1;
    }
    let tok = subvec(s, start, n);
    proof {
        let rest = s@.skip(start as int);
        assert(forall|j: int|
            0 <= j < rest.len() ==> rest[j] == s@[start + j] && !is_space(rest[j]));
        lemma_split_space_none(rest);
        assert(rest =~= s@.subrange(start as int, n as int));
    }
    let ghost old_r = r.deep_view();
    r.push(tok);
    proof {
        assert(r.deep_view() =~~= old_r.push(s@.subrange(start as int, n as int)));
        assert(old_r + seq![s@.subrange(start as int, n as int)] =~= r.deep_view());
    }
    r
}

/// Keeps the non-empty pieces, in order.
pub fn filter_nonempty(parts: Vec<Vec<char>>) -> (r: Vec<Vec<char>>)
    ensures
        r.deep_view() == nonempty_tokens(parts.deep_view()),
{
    let n = parts.len();
    let mut r: Vec<Vec<char>> = Vec::new();
    let mut i: usize = 0;
    while i < n
        invariant
            0 <= i <= n == parts@.len(),
            r.deep_view() == nonempty_tokens(parts.deep_view().take(i as int)),
        decreases n - i,
    {
        proof {
            lemma_nonempty_tokens_push(parts.deep_view().take(i as int), parts.deep_view()[
                i as int
            ]);
            assert(parts.deep_view().take(i as int).push(parts.deep_view()[i as int])
                =~= parts.deep_view().take(i + 1));
        }
        if parts[i].len() > 0 {
            let ghost old_r = r.deep_view();
            let tok = subvec(&parts[i], 0, parts[i].len());
            proof {
                assert(parts@[i as int]@.subrange(0, parts@[i as int]@.len() as int)
                    =~= parts.deep_view()[i as int]);
            }
            r.push(tok);
            proof {
                assert(r.deep_view() =~~= old_r.push(parts.deep_view()[i as int]));
            }
        }
        i = i + 1;
    }
    proof {
        assert(parts.deep_view().take(n as int) =~= parts.deep_view());
    }
    r
}

/// The characters of a string, in order.
pub fn str_to_chars(s: &str) -> (v: Vec<char>)
    ensures
        v@ == s@,
{
    let n = s.unicode_len();
    let mut v: Vec<char> = Vec::new();
    let mut i: usize = 0;
    while i < n
        invariant
            0 <= i <= n == s@.len(),
            v@ =~= s@.take(i as int),
        decreases n - i,
    {
        v.push(s.get_char(i));
        i = i + 1;
    }
    proof {
        assert(v@ =~= s@);
    }
    v
}

/// Builds a string out of a sequence of characters.
///
/// Relies on `core::iter::Iterator::collect` gathering every element of the
/// vector's iterator, in order, into the resulting string.
#[verifier::external_body]
pub fn chars_to_string(v: &Vec<char>) -> (s: String)
    ensures
        s@ == v@,
{
    v.iter().collect()
}

/// Whether two strings hold the same characters.
pub fn str_eq(a: &str, b: &str) -> (r: bool)
    ensures
        r == (a@ == b@),
{
    let na = a.unicode_len();
    let nb = b.unicode_len();
    if na != nb {
        return false;
    }
    let mut i: usize = 0;
    while i < na
        invariant
            0 <= i <= na == a@.len(),
            na == b@.len(),
            forall|j: int| 0 <= j < i ==> a@[j] == b@[j],
        decreases na - i,
    {
        if a.get_char(i) != b.get_char(i) {
            return false;
        }
        i = i + 1;
    }
    proof {
        assert(a@ =~= b@);
    }
    true
}

} // verus!
