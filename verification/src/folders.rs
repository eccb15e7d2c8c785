//! The path scheme: `root/YYYY/MM` directory names, folder-name validation,
//! and the post-creation structure check on a resolved target directory.
use vstd::prelude::*;
use vstd::string::StrSliceExecFns;
use vstd::string::StringExecFns;
use crate::errors::RuntimeError;
use crate::text::{
    is_digit, digit_val, pad2, pad4, pad2_str, pad4_str,
    lemma_pad2_digits, lemma_pad4_digits,
};

verus! {

/// The numeric value of a two-digit folder name.
pub open spec fn month_name_val(s: Seq<char>) -> int {
    digit_val(s[0]) * 10 + digit_val(s[1])
}

/// A month folder name: exactly two ASCII digits whose value is in 1..=12.
pub open spec fn valid_month_name(s: Seq<char>) -> bool {
    &&& s.len() == 2
    &&& is_digit(s[0])
    &&& is_digit(s[1])
    &&& 1 <= month_name_val(s) <= 12
}

/// A year folder name: exactly four ASCII digits.
pub open spec fn valid_year_name(s: Seq<char>) -> bool {
    s.len() == 4 && (forall|i: int| 0 <= i < 4 ==> is_digit(#[trigger] s[i]))
}

/// Whether `folder_name` is a well-formed month folder.
pub fn is_valid_month(folder_name: &str) -> (r: bool)
    ensures
        r == valid_month_name(folder_name@),
{
    if folder_name.unicode_len() != 2 {
        return false;
    }
    let c0 = folder_name.get_char(0);
    let c1 = folder_name.get_char(1);
    if !('0' <= c0 && c0 <= '9' && '0' <= c1 && c1 <= '9') {
        return false;
    }
    let v = (c0 as u32 - '0' as u32) * 10 + (c1 as u32 - '0' as u32);
    1 <= v && v <= 12
}

/// Whether `folder_name` is a well-formed year folder.
pub fn is_valid_year(folder_name: &str) -> (r: bool)
    ensures
        r == valid_year_name(folder_name@),
{
    if folder_name.unicode_len() != 4 {
        return false;
    }
    let mut i: usize = 0;
    while i < 4
        invariant
            i <= 4,
            folder_name@.len() == 4,
            forall|k: int| 0 <= k < i ==> is_digit(#[trigger] folder_name@[k]),
        decreases 4 - i,
    {
        let c = folder_name.get_char(i);
        if !('0' <= c && c <= '9') {
            return false;
        }
        i += 1;
    }
    true
}

/// Characters of a year directory name: the year zero-padded to four digits,
/// with a leading `-` for a negative year.
pub open spec fn year_dir_chars(year: int) -> Seq<char> {
    if year < 0 {
        seq!['-'] + pad4((-year) as nat)
    } else {
        pad4(year as nat)
    }
}

/// The directory name of a year.
pub fn year_dir_name(year: i32) -> (r: String)
    ensures
        r@ == year_dir_chars(year as int),
{
    if year >= 0 {
        pad4_str(year as u32)
    } else {
        let mut r = "-".to_owned();
        let m: u32 = (-(year as i64)) as u32;
        r.append(pad4_str(m).as_str());
        proof {
            reveal_strlit("-");
            assert(r@ =~= year_dir_chars(year as int));
        }
        r
    }
}

/// The directory name of a month: its value zero-padded to two digits.
pub fn month_dir_name(month: u32) -> (r: String)
    ensures
        r@ == pad2(month as nat),
{
    pad2_str(month)
}

/// `a` and `b` joined with a single `/`.
pub open spec fn dir_join(a: Seq<char>, b: Seq<char>) -> Seq<char> {
    a + seq!['/'] + b
}

/// Characters of the target directory for a year and month under `root`:
/// `root/YYYY/MM`.
pub open spec fn target_dir_chars(root: Seq<char>, year: int, month: u32) -> Seq<char> {
    dir_join(dir_join(root, year_dir_chars(year)), pad2(month as nat))
}

/// The directory that holds the entries of a year and month: `root/YYYY/MM`.
pub fn target_dir(root: &str, year: i32, month: u32) -> (r: String)
    ensures
        r@ == target_dir_chars(root@, year as int, month),
{
    let mut r = root.to_owned();
    r.append("/");
    r.append(year_dir_name(year).as_str());
    r.append("/");
    r.append(month_dir_name(month).as_str());
    proof {
        reveal_strlit("/");
        assert(r@ =~= target_dir_chars(root@, year as int, month));
    }
    r
}

/// The maximal suffix of `p` with no `/`: the file name of a path.
pub open spec fn last_segment(p: Seq<char>) -> Seq<char>
    decreases p.len(),
{
    if p.len() == 0 {
        p
    } else if p.last() == '/' {
        Seq::empty()
    } else {
        last_segment(p.drop_last()).push(p.last())
    }
}

/// Everything before the `/` that precedes the last segment; empty when `p`
/// holds no `/`.
pub open spec fn parent_dir(p: Seq<char>) -> Seq<char> {
    if last_segment(p).len() == p.len() {
        Seq::empty()
    } else {
        p.take(p.len() - last_segment(p).len() - 1)
    }
}

/// A path with no `/` is all one segment.
pub proof fn lemma_last_segment_no_slash(p: Seq<char>)
    requires
        forall|i: int| 0 <= i < p.len() ==> p[i] != '/',
    ensures
        last_segment(p) == p,
    decreases p.len(),
{
    if p.len() != 0 {
        lemma_last_segment_no_slash(p.drop_last());
        assert(last_segment(p) =~= p);
    }
}

/// After the last `/` of a path, the segment is exactly the remaining suffix.
pub proof fn lemma_last_segment_split(p: Seq<char>, i: int)
    requires
        0 <= i < p.len(),
        p[i] == '/',
        forall|j: int| i < j < p.len() ==> p[j] != '/',
    ensures
        last_segment(p) == p.skip(i + 1),
        parent_dir(p) == p.take(i),
    decreases p.len(),
{
    if i == p.len() - 1 {
        assert(last_segment(p) =~= p.skip(i + 1));
    } else {
        lemma_last_segment_split(p.drop_last(), i);
        assert(p.drop_last().skip(i + 1) =~= p.skip(i + 1).drop_last());
        assert(last_segment(p) =~= p.skip(i + 1));
    }
    assert(last_segment(p).len() == p.len() - i - 1);
    assert(parent_dir(p) == p.take(i));
}

/// Joining a slash-free name under a directory makes it the last segment and
/// leaves the directory as the parent.
pub proof fn lemma_segments_of_join(x: Seq<char>, y: Seq<char>)
    requires
        forall|i: int| 0 <= i < y.len() ==> y[i] != '/',
    ensures
        last_segment(dir_join(x, y)) == y,
        parent_dir(dir_join(x, y)) == x,
{
    let p = dir_join(x, y);
    assert(p[x.len() as int] == '/');
    lemma_last_segment_split(p, x.len() as int);
    assert(p.skip(x.len() as int + 1) =~= y);
    assert(p.take(x.len() as int) =~= x);
}

/// Index of the last `/` strictly before `end`, if any.
fn rfind_slash_before(s: &str, end: usize) -> (r: Option<usize>)
    requires
        end <= s@.len(),
    ensures
        match r {
            Some(i) => i < end && s@[i as int] == '/' && (forall|j: int|
                i < j < end ==> s@[j] != '/'),
            None => forall|j: int| 0 <= j < end ==> s@[j] != '/',
        },
{
    let mut k: usize = end;
    while k > 0
        invariant
            k <= end <= s@.len(),
            forall|j: int| k <= j < end ==> s@[j] != '/',
        decreases k,
    {
        k -= 1;
        if s.get_char(k) == '/' {
            return Some(k);
        }
    }
    None
}

/// Checks a resolved target directory against the layout: its own name must
/// be a valid month folder and its parent's name a valid year folder. On a
/// mismatch, reports the first offending folder name.
pub fn validate_target_dir(path: &str) -> (r: Result<(), RuntimeError>)
    ensures
        r is Ok <==> valid_month_name(last_segment(path@)) && valid_year_name(
            last_segment(parent_dir(path@)),
        ),
        r is Err ==> (r->Err_0 matches RuntimeError::InvalidStructure(name) && (
        if !valid_month_name(last_segment(path@)) {
            name@ == last_segment(path@)
        } else {
            name@ == last_segment(parent_dir(path@))
        })),
{
    let len = path.unicode_len();
    let slash = rfind_slash_before(path, len);
    let month_name: &str = match slash {
        Some(i) => path.substring_char(i + 1, len),
        None => path,
    };
    proof {
        match slash {
            Some(i) => lemma_last_segment_split(path@, i as int),
            None => lemma_last_segment_no_slash(path@),
        }
        assert(month_name@ == last_segment(path@));
    }
    if !is_valid_month(month_name) {
        return Err(RuntimeError::InvalidStructure(month_name.to_owned()));
    }
    let year_name: &str = match slash {
        Some(i) => {
            let prev = rfind_slash_before(path, i);
            proof {
                let par = path@.take(slash->0 as int);
                match prev {
                    Some(j) => {
                        lemma_last_segment_split(par, j as int);
                        assert(par.skip(j as int + 1) =~= path@.subrange(
                            j as int + 1,
                            slash->0 as int,
                        ));
                    },
                    None => {
                        lemma_last_segment_no_slash(par);
                        assert(par =~= path@.subrange(0, slash->0 as int));
                    },
                }
            }
            match prev {
                Some(j) => path.substring_char(j + 1, i),
                None => path.substring_char(0, i),
            }
        },
        None => {
            proof {
                assert(parent_dir(path@) =~= Seq::<char>::empty());
                reveal_strlit("");
                assert(""@ =~= Seq::<char>::empty());
            }
            ""
        },
    };
    proof {
        assert(year_name@ == last_segment(parent_dir(path@)));
    }
    if !is_valid_year(year_name) {
        return Err(RuntimeError::InvalidStructure(year_name.to_owned()));
    }
    Ok(())
}

/// The target directory computed for an in-range year and month always passes
/// `validate_target_dir`'s checks, however often it is re-derived: resolving
/// the same date twice re-validates the same path with the same outcome.
pub proof fn lemma_target_dir_always_valid(root: Seq<char>, year: int, month: u32)
    requires
        0 <= year <= 9999,
        1 <= month <= 12,
    ensures
        valid_month_name(last_segment(target_dir_chars(root, year, month))),
        valid_year_name(last_segment(parent_dir(target_dir_chars(root, year, month)))),
{
    let yname = year_dir_chars(year);
    let mname = pad2(month as nat);
    lemma_pad4_digits(year as nat);
    lemma_pad2_digits(month as nat);
    lemma_segments_of_join(dir_join(root, yname), mname);
    lemma_segments_of_join(root, yname);
}

} // verus!
