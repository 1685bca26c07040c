use vstd::prelude::*;

use crate::model::{RepoReport, RepositoryState, STATE_LABEL_WIDTH};

verus! {

/// What a report of one repository is, to the layout: its display name, its
/// branches (name and head flag), and its state.
pub type RepoModel = (Seq<char>, Seq<(Seq<char>, bool)>, RepositoryState);

/// Columns taken by the marker, the separator and the spaces around it.
pub const FIXED_COLUMNS: usize = 5;

/// The shared column widths of a report.
#[derive(Clone, Copy, Debug, PartialEq, Eq, Structural)]
pub struct Layout {
    pub max_repo_name_width: usize,
    pub max_branch_name_width: usize,
    pub max_state_label_width: usize,
    pub divider_width: usize,
}

/// The longest display name, in characters; 0 for no repository.
pub open spec fn max_repo_width(s: Seq<RepoModel>) -> nat
    decreases s.len(),
{
    if s.len() == 0 {
        0
    } else {
        let m = max_repo_width(s.drop_last());
        if s.last().0.len() > m {
            s.last().0.len()
        } else {
            m
        }
    }
}

/// The longest branch name of one repository; 0 for no branch.
pub open spec fn max_name_width(b: Seq<(Seq<char>, bool)>) -> nat
    decreases b.len(),
{
    if b.len() == 0 {
        0
    } else {
        let m = max_name_width(b.drop_last());
        if b.last().0.len() > m {
            b.last().0.len()
        } else {
            m
        }
    }
}

/// The longest branch name over all repositories; 0 where none has a branch.
pub open spec fn max_branch_width(s: Seq<RepoModel>) -> nat
    decreases s.len(),
{
    if s.len() == 0 {
        0
    } else {
        let m = max_branch_width(s.drop_last());
        let w = max_name_width(s.last().1);
        if w > m {
            w
        } else {
            m
        }
    }
}

/// The width of the divider for widths of names and branch names.
pub open spec fn divider_width_for(repo_width: int, branch_width: int) -> int {
    repo_width + FIXED_COLUMNS + branch_width + 1 + STATE_LABEL_WIDTH
}

pub open spec fn models(reports: Seq<RepoReport>) -> Seq<RepoModel> {
    reports.map_values(|r: RepoReport| r@)
}

proof fn lemma_name_width_bound(b: Seq<(Seq<char>, bool)>)
    ensures
        forall|j: int| 0 <= j < b.len() ==> (#[trigger] b[j]).0.len() <= max_name_width(b),
        max_name_width(b) == 0 || exists|j: int|
            0 <= j < b.len() && (#[trigger] b[j]).0.len() == max_name_width(b),
    decreases b.len(),
{
    if b.len() > 0 {
        lemma_name_width_bound(b.drop_last());
        assert forall|j: int| 0 <= j < b.len() implies (#[trigger] b[j]).0.len() <= max_name_width(b) by {
            if j < b.len() - 1 {
                assert(b[j] == b.drop_last()[j]);
            }
        }
        if max_name_width(b) != b.last().0.len() && max_name_width(b) != 0 {
            let j = choose|j: int|
                0 <= j < b.drop_last().len() && (#[trigger] b.drop_last()[j]).0.len()
                    == max_name_width(b.drop_last());
            assert(b[j] == b.drop_last()[j]);
        }
    }
}

/// The computed width of the branch column holds every branch name of every
/// repository, and the name column every display name.
pub proof fn lemma_widths_cover(s: Seq<RepoModel>)
    ensures
        forall|i: int, j: int|
            0 <= i < s.len() && 0 <= j < s[i].1.len() ==> (#[trigger] s[i].1[j]).0.len()
                <= max_branch_width(s),
        forall|i: int| 0 <= i < s.len() ==> (#[trigger] s[i]).0.len() <= max_repo_width(s),
    decreases s.len(),
{
    if s.len() > 0 {
        lemma_widths_cover(s.drop_last());
        lemma_name_width_bound(s.last().1);
        assert forall|i: int, j: int|
            0 <= i < s.len() && 0 <= j < s[i].1.len() implies (#[trigger] s[i].1[j]).0.len()
                <= max_branch_width(s) by {
            if i < s.len() - 1 {
                assert(s[i] == s.drop_last()[i]);
            }
        }
        assert forall|i: int| 0 <= i < s.len() implies (#[trigger] s[i]).0.len()
            <= max_repo_width(s) by {
            if i < s.len() - 1 {
                assert(s[i] == s.drop_last()[i]);
            }
        }
    }
}

/// The longest display name and the longest branch name over all reports.
fn measure(reports: &Vec<RepoReport>) -> (r: (usize, usize))
    ensures
        r.0 == max_repo_width(models(reports@)),
        r.1 == max_branch_width(models(reports@)),
        forall|i: int, j: int|
            0 <= i < reports@.len() && 0 <= j < reports@[i].branches@.len()
                ==> (#[trigger] reports@[i].branches@[j]).name@.len() <= r.1,
        forall|i: int| 0 <= i < reports@.len() ==> (#[trigger] reports@[i]).name@.len() <= r.0,
{
    let ghost all = models(reports@);
    let mut mr: usize = 0;
    let mut mb: usize = 0;
    let mut i: usize = 0;
    while i < reports.len()
        invariant
            i <= reports@.len(),
            all == models(reports@),
            mr == max_repo_width(all.subrange(0, i as int)),
            mb == max_branch_width(all.subrange(0, i as int)),
        decreases reports.len() - i,
    {
        let rep = &reports[i];
        assert(all.subrange(0, i + 1).drop_last() =~= all.subrange(0, i as int));
        assert(all[i as int] == rep@);
        let w = rep.name.as_str().unicode_len();
        if w > mr {
            mr = w;
        }
        let ghost bs = rep@.1;
        let mut wb: usize = 0;
        let mut j: usize = 0;
        while j < rep.branches.len()
            invariant
                j <= bs.len(),
                bs == rep@.1,
                bs.len() == rep.branches@.len(),
                wb == max_name_width(bs.subrange(0, j as int)),
            decreases rep.branches.len() - j,
        {
            assert(bs.subrange(0, j + 1).drop_last() =~= bs.subrange(0, j as int));
            let l = rep.branches[j].name.as_str().unicode_len();
            if l > wb {
                wb = l;
            }
            j = j + 1;
        }
        assert(bs.subrange(0, j as int) =~= bs);
        if wb > mb {
            mb = wb;
        }
        i = i + 1;
    }
    assert(all.subrange(0, i as int) =~= all);
    proof {
        lemma_widths_cover(all);
        assert forall|i: int, j: int|
            0 <= i < reports@.len() && 0 <= j < reports@[i].branches@.len()
                implies (#[trigger] reports@[i].branches@[j]).name@.len() <= mb by {
            assert(all[i].1[j] == reports@[i].branches@[j]@);
        }
        assert forall|i: int| 0 <= i < reports@.len() implies (#[trigger] reports@[i]).name@.len()
            <= mr by {
            assert(all[i] == reports@[i]@);
        }
    }
    (mr, mb)
}

/// Measures all reports and derives the shared column widths.
pub fn compute_layout(reports: &Vec<RepoReport>) -> (r: Layout)
    requires
        divider_width_for(
            max_repo_width(models(reports@)) as int,
            max_branch_width(models(reports@)) as int,
        ) <= usize::MAX,
    ensures
        r.max_repo_name_width == max_repo_width(models(reports@)),
        r.max_branch_name_width == max_branch_width(models(reports@)),
        r.max_state_label_width == STATE_LABEL_WIDTH,
        r.divider_width == divider_width_for(
            r.max_repo_name_width as int,
            r.max_branch_name_width as int,
        ),
        forall|i: int, j: int|
            0 <= i < reports@.len() && 0 <= j < reports@[i].branches@.len()
                ==> (#[trigger] reports@[i].branches@[j]).name@.len() <= r.max_branch_name_width,
        forall|i: int|
            0 <= i < reports@.len() ==> (#[trigger] reports@[i]).name@.len()
                <= r.max_repo_name_width,
{
    let (mr, mb) = measure(reports);
    Layout {
        max_repo_name_width: mr,
        max_branch_name_width: mb,
        max_state_label_width: STATE_LABEL_WIDTH,
        divider_width: mr + FIXED_COLUMNS + mb + 1 + STATE_LABEL_WIDTH,
    }
}

/// The layout of `compute_layout`, or `None` where the divider width would not
/// fit in a `usize`.
pub fn try_compute_layout(reports: &Vec<RepoReport>) -> (r: Option<Layout>)
    ensures
        r is Some <==> divider_width_for(
            max_repo_width(models(reports@)) as int,
            max_branch_width(models(reports@)) as int,
        ) <= usize::MAX,
        r matches Some(l) ==> {
            &&& l.max_repo_name_width == max_repo_width(models(reports@))
            &&& l.max_branch_name_width == max_branch_width(models(reports@))
            &&& l.max_state_label_width == STATE_LABEL_WIDTH
            &&& l.divider_width == divider_width_for(
                l.max_repo_name_width as int,
                l.max_branch_name_width as int,
            )
        },
{
    let (mr, mb) = measure(reports);
    let fixed: usize = FIXED_COLUMNS + 1 + STATE_LABEL_WIDTH;
    if mb > usize::MAX - fixed || mr > usize::MAX - fixed - mb {
        return None;
    }
    Some(compute_layout(reports))
}

} // verus!
