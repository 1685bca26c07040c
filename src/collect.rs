use vstd::prelude::*;

use crate::model::{Branch, RawBranch, RepoReport, RepositoryState, ReportError};
use crate::order::{ordered, sort_branches};

verus! {

/// The path with its trailing separators taken off.
pub open spec fn strip_separators(p: Seq<char>) -> Seq<char>
    decreases p.len(),
{
    if p.len() > 0 && p.last() == '/' {
        strip_separators(p.drop_last())
    } else {
        p
    }
}

/// What follows the last separator.
pub open spec fn after_last_separator(p: Seq<char>) -> Seq<char>
    decreases p.len(),
{
    if p.len() == 0 || p.last() == '/' {
        Seq::empty()
    } else {
        after_last_separator(p.drop_last()).push(p.last())
    }
}

/// The final segment of a path, trailing separators ignored.
pub open spec fn final_segment(p: Seq<char>) -> Seq<char> {
    after_last_separator(strip_separators(p))
}

/// A segment that names a directory: not empty, `.` or `..`.
pub open spec fn usable_name(n: Seq<char>) -> bool {
    n.len() > 0 && n != seq!['.'] && n != seq!['.', '.']
}

/// The display name of a repository: the final segment of its path, where
/// that segment is usable.
pub fn display_name(path: &str) -> (r: Option<String>)
    ensures
        r is Some <==> usable_name(final_segment(path@)),
        r matches Some(n) ==> n@ == final_segment(path@),
{
    let ghost p = path@;
    let mut end: usize = path.unicode_len();
    assert(p.subrange(0, end as int) =~= p);
    while end > 0 && path.get_char(end - 1) == '/'
        invariant
            end <= p.len(),
            p == path@,
            strip_separators(p) == strip_separators(p.subrange(0, end as int)),
        decreases end,
    {
        assert(p.subrange(0, end as int).drop_last() =~= p.subrange(0, end - 1));
        end = end - 1;
    }
    let mut start: usize = end;
    assert(p.subrange(start as int, end as int) =~= Seq::<char>::empty());
    while start > 0 && path.get_char(start - 1) != '/'
        invariant
            start <= end <= p.len(),
            p == path@,
            after_last_separator(p.subrange(0, end as int)) == after_last_separator(
                p.subrange(0, start as int),
            ) + p.subrange(start as int, end as int),
        decreases start,
    {
        assert(p.subrange(0, start as int).drop_last() =~= p.subrange(0, start - 1));
        assert(p.subrange(start - 1, end as int) =~= p.subrange(start - 1, start as int)
            + p.subrange(start as int, end as int));
        assert(after_last_separator(p.subrange(0, start - 1)).push(p[start - 1])
            + p.subrange(start as int, end as int) =~= after_last_separator(
            p.subrange(0, start - 1),
        ) + p.subrange(start - 1, end as int));
        start = start - 1;
    }
    let seg = path.substring_char(start, end);
    assert(seg@ =~= final_segment(p));
    let n = end - start;
    if n == 0 {
        return None;
    }
    if n <= 2 && seg.get_char(0) == '.' && (n == 1 || seg.get_char(1) == '.') {
        assert(n == 1 ==> seg@ =~= seq!['.']);
        assert(n == 2 ==> seg@ =~= seq!['.', '.']);
        return None;
    }
    Some(String::from_str(seg))
}


/// Takes the decoded branches out of the raw ones; `None` where a name is
/// missing.
fn decode_branches(raw: Vec<RawBranch>) -> (r: Option<Vec<Branch>>)
    ensures
        r is Some <==> forall|i: int| 0 <= i < raw@.len() ==> (#[trigger] raw@[i]).decoded(),
        r matches Some(v) ==> v@.map_values(|b: Branch| b@) == raw@.map_values(
            |x: RawBranch| x.model(),
        ),
{
    let mut out: Vec<Branch> = Vec::new();
    let mut i: usize = 0;
    while i < raw.len()
        invariant
            i <= raw@.len(),
            out@.len() == i,
            forall|j: int| 0 <= j < i ==> (#[trigger] raw@[j]).decoded(),
            forall|j: int| 0 <= j < i ==> (#[trigger] out@[j])@ == raw@[j].model(),
        decreases raw.len() - i,
    {
        match &raw[i] {
            RawBranch { name: Some(n), is_head } => {
                out.push(Branch { name: n.clone(), is_head: *is_head });
            },
            RawBranch { name: None, .. } => {
                return None;
            },
        }
        i = i + 1;
    }
    assert(out@.map_values(|b: Branch| b@) =~= raw@.map_values(|x: RawBranch| x.model()));
    Some(out)
}

/// Builds the report of one repository from its path, its branches as read,
/// and its state. Fails on a branch without a usable name first, then on a
/// path without a usable final segment.
pub fn collect_repo(path: &str, raw: Vec<RawBranch>, state: RepositoryState) -> (r: Result<
    RepoReport,
    ReportError,
>)
    ensures
        r == Err::<RepoReport, ReportError>(ReportError::BranchDecode) <==> exists|i: int|
            0 <= i < raw@.len() && !(#[trigger] raw@[i]).decoded(),
        r == Err::<RepoReport, ReportError>(ReportError::DisplayName) <==> (forall|i: int|
            0 <= i < raw@.len() ==> (#[trigger] raw@[i]).decoded()) && !usable_name(
            final_segment(path@),
        ),
        r is Ok <==> (forall|i: int| 0 <= i < raw@.len() ==> (#[trigger] raw@[i]).decoded())
            && usable_name(final_segment(path@)),
        r matches Ok(rep) ==> {
            &&& rep.name@ == final_segment(path@)
            &&& rep.state == state
            &&& rep@.1.to_multiset() == raw@.map_values(|x: RawBranch| x.model()).to_multiset()
            &&& ordered(rep@.1)
        },
{
    let branches = match decode_branches(raw) {
        Some(b) => b,
        None => {
            return Err(ReportError::BranchDecode);
        },
    };
    let name = match display_name(path) {
        Some(n) => n,
        None => {
            return Err(ReportError::DisplayName);
        },
    };
    let sorted = sort_branches(branches);
    Ok(RepoReport { name, branches: sorted, state })
}

} // verus!
