//! The slugifier: turns a free-text title into a filesystem-safe slug.
use vstd::prelude::*;
use vstd::string::StrSliceExecFns;
use crate::text::string_from_chars;

verus! {

/// Characters that may not appear in a file name and are replaced by `-`.
pub open spec fn reserved_char(c: char) -> bool {
    c == ' ' || c == '/' || c == '\\' || c == ':' || c == '?' || c == '*' || c == '"' || c == '\''
        || c == '<' || c == '>' || c == '|'
}

/// A single character after replacement.
pub open spec fn replace_reserved(c: char) -> char {
    if reserved_char(c) {
        '-'
    } else {
        c
    }
}

/// Collapses every run of two or more `-` into a single `-`: a character is
/// kept unless it is a `-` directly preceded by another `-`.
pub open spec fn collapse_dashes(s: Seq<char>) -> Seq<char>
    decreases s.len(),
{
    if s.len() == 0 {
        s
    } else if s.last() == '-' && s.len() >= 2 && s[s.len() - 2] == '-' {
        collapse_dashes(s.drop_last())
    } else {
        collapse_dashes(s.drop_last()).push(s.last())
    }
}

/// Removes every trailing `-`.
pub open spec fn trim_trailing_dashes(s: Seq<char>) -> Seq<char>
    decreases s.len(),
{
    if s.len() > 0 && s.last() == '-' {
        trim_trailing_dashes(s.drop_last())
    } else {
        s
    }
}

/// The slug of a title: reserved characters become `-`, runs of `-` collapse
/// to one, and trailing `-` are removed (a leading `-` is kept).
pub open spec fn slug_of(title: Seq<char>) -> Seq<char> {
    trim_trailing_dashes(collapse_dashes(title.map_values(|c: char| replace_reserved(c))))
}

fn map_char(c: char) -> (r: char)
    ensures
        r == replace_reserved(c),
{
    match c {
        ' ' | '/' | '\\' | ':' | '?' | '*' | '"' | '\'' | '<' | '>' | '|' => '-',
        _ => c,
    }
}

/// Sanitizes a title into a slug usable inside an entry file name.
pub fn sanitize_title(title: &str) -> (r: String)
    ensures
        r@ == slug_of(title@),
{
    let ghost mapped = title@.map_values(|c: char| replace_reserved(c));
    let n = title.unicode_len();
    let mut out: Vec<char> = Vec::new();
    let mut i: usize = 0;
    while i < n
        invariant
            i <= n,
            n == title@.len(),
            mapped == title@.map_values(|c: char| replace_reserved(c)),
            out@ == collapse_dashes(mapped.take(i as int)),
        decreases n - i,
    {
        let c = map_char(title.get_char(i));
        let keep = if c == '-' && i > 0 {
            let prev = map_char(title.get_char(i - 1));
            prev != '-'
        } else {
            true
        };
        proof {
            assert(mapped.take(i as int + 1).drop_last() =~= mapped.take(i as int));
            assert(mapped.take(i as int + 1).last() == mapped[i as int]);
            assert(mapped[i as int] == replace_reserved(title@[i as int]));
            if i > 0 {
                assert(mapped[i as int - 1] == replace_reserved(title@[i as int - 1]));
            }
        }
        if keep {
            out.push(c);
        }
        i += 1;
    }
    proof {
        assert(mapped.take(n as int) =~= mapped);
    }
    while out.len() > 0 && out[out.len() - 1] == '-'
        invariant
            trim_trailing_dashes(out@) == trim_trailing_dashes(collapse_dashes(mapped)),
        decreases out@.len(),
    {
        out.pop();
    }
    proof {
        assert(trim_trailing_dashes(out@) == out@);
    }
    string_from_chars(&out)
}

} // verus!
