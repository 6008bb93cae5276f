use vstd::prelude::*;
use vstd::string::StrSliceExecFns;
use crate::text::{concat_map, lemma_concat_map_push};

verus! {

/// The captured outcome of one external operation: its exit status and the
/// fully buffered output streams.  By convention a non-zero exit status
/// means the operation failed; stdout carries structured results and
/// stderr diagnostic text.
#[derive(Debug)]
pub struct ExecutionResult {
    pub exit_code: i32,
    pub stdout: String,
    pub stderr: String,
}

/// How one character is carried inside a single-quoted shell word: a quote
/// closes the word, emits an escaped quote, and reopens it.
pub open spec fn shell_quote_char(c: char) -> Seq<char> {
    if c == '\'' {
        seq!['\'', '\\', '\'', '\'']
    } else {
        seq![c]
    }
}

/// `s` as one single-quoted shell word: the shell passes it through
/// verbatim, whatever it holds.
pub open spec fn shell_quoted(s: Seq<char>) -> Seq<char> {
    seq!['\''] + concat_map(s, |c: char| shell_quote_char(c)) + seq!['\'']
}

/// The command line handed to the external runtime for one operation: it
/// enables strict failure mode, sources the operation-definitions file
/// (quoted, so the path is never re-interpreted), and invokes the
/// operation with the positional arguments passed alongside.
pub open spec fn gateway_command_text(functions_path: Seq<char>, operation: Seq<char>) -> Seq<
    char,
> {
    "set -euo pipefail; source "@ + shell_quoted(functions_path) + " && "@ + operation
        + " \"$@\""@
}

/// Quotes `s` as a single shell word.
pub fn shell_quote(s: &str) -> (r: Vec<char>)
    ensures
        r@ == shell_quoted(s@),
{
    let n = s.unicode_len();
    let mut v: Vec<char> = Vec::new();
    v.push('\'');
    let mut i: usize = 0;
    while i < n
        invariant
            0 <= i <= n == s@.len(),
            v@ == seq!['\''] + concat_map(s@.take(i as int), |c: char| shell_quote_char(c)),
        decreases n - i,
    {
        let c = s.get_char(i);
        if c == '\'' {
            v.push('\'');
            v.push('\\');
            v.push('\'');
            v.push('\'');
        } else {
            v.push(c);
        }
        proof {
            lemma_concat_map_push(s@.take(i as int), |c: char| shell_quote_char(c), s@[i as int]);
            assert(s@.take(i as int).push(s@[i as int]) =~= s@.take(i + 1));
            assert(v@ =~= seq!['\''] + concat_map(
                s@.take(i + 1),
                |c: char| shell_quote_char(c),
            ));
        }
        i = i + 1;
    }
    v.push('\'');
    proof {
        assert(s@.take(n as int) =~= s@);
    }
    v
}

/// Builds the command line that runs `operation` from the definitions file
/// at `functions_path`.  Arguments are not part of the text: the caller
/// hands them to the runtime positionally, as opaque values.
pub fn gateway_command(functions_path: &str, operation: &str) -> (r: String)
    ensures
        r@ == gateway_command_text(functions_path@, operation@),
{
    let quoted = shell_quote(functions_path);
    let quoted_str = crate::text::chars_to_string(&quoted);
    let r = String::from_str("set -euo pipefail; source ").concat(quoted_str.as_str()).concat(
        " && ",
    ).concat(operation).concat(" \"$@\"");
    r
}

} // verus!
