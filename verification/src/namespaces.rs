use vstd::prelude::*;
use crate::text::{
    chars_to_string, filter_nonempty, nonempty_tokens, split_chars, split_on, str_to_chars, trim,
    trim_chars,
};

verus! {

/// One active namespace as reported by the gateway: its name and the
/// processes currently running inside it, as printed.
#[derive(Debug)]
pub struct NamespaceInfo {
    pub name: String,
    pub processes: String,
}

/// The namespace names in the listing operation's captured output: its
/// non-empty lines, after surrounding whitespace is trimmed.
pub open spec fn namespace_names(s: Seq<char>) -> Seq<Seq<char>> {
    nonempty_tokens(split_on(trim(s), '\n'))
}

/// Extracts the active namespace names from the listing operation's
/// captured output.
pub fn parse_namespace_list(output: &str) -> (r: Vec<String>)
    ensures
        r.deep_view() == namespace_names(output@),
{
    let chars = str_to_chars(output);
    let trimmed = trim_chars(&chars);
    let lines = split_chars(&trimmed, '\n');
    let names = filter_nonempty(lines);
    let n = names.len();
    let mut r: Vec<String> = Vec::new();
    let mut i: usize = 0;
    while i < n
        invariant
            0 <= i <= n == names@.len(),
            r.deep_view() =~= names.deep_view().take(i as int),
        decreases n - i,
    {
        let ghost old_r = r.deep_view();
        r.push(chars_to_string(&names[i]));
        proof {
            assert(r.deep_view() =~~= old_r.push(names.deep_view()[i as int]));
            assert(old_r.push(names.deep_view()[i as int]) =~= names.deep_view().take(i + 1));
        }
        i = i + 1;
    }
    proof {
        assert(names.deep_view().take(n as int) =~= names.deep_view());
    }
    r
}

/// Pairs a namespace name with the trimmed process listing captured for
/// it.
pub fn namespace_info(name: &str, processes_output: &str) -> (r: NamespaceInfo)
    ensures
        r.name@ == name@,
        r.processes@ == trim(processes_output@),
{
    let chars = str_to_chars(processes_output);
    let trimmed = trim_chars(&chars);
    NamespaceInfo { name: String::from_str(name), processes: chars_to_string(&trimmed) }
}

} // verus!
