use vstd::prelude::*;

use crate::layout::{models, Layout, RepoModel};
use crate::model::{state_label, Branch, RepoReport, RepositoryState};

verus! {

/// The colour a segment of the report is written in. `Reset` returns the
/// terminal to its default colours before the text is written.
#[derive(Clone, Copy, Debug, PartialEq, Eq, Structural)]
pub enum Tone {
    Reset,
    Head,
    Other,
    Neutral,
}

/// A piece of the report: text and the colour it is written in.
#[derive(Clone, Debug)]
pub struct Segment {
    pub tone: Tone,
    pub text: String,
}

impl View for Segment {
    type V = (Tone, Seq<char>);

    open spec fn view(&self) -> (Tone, Seq<char>) {
        (self.tone, self.text@)
    }
}

/// How branches are shown.
#[derive(Clone, Copy, Debug, PartialEq, Eq, Structural)]
pub struct RenderOptions {
    /// Leave out `master` and `stable` where they are not the head branch.
    pub hide_master_stable: bool,
    /// Pad branch names to a common width and show the state on the head line.
    pub show_state: bool,
}

/// Minimum width of the display name field.
pub const NAME_FIELD_WIDTH: usize = 3;

pub open spec fn spaces(n: int) -> Seq<char> {
    Seq::new(if n > 0 { n as nat } else { 0 }, |k: int| ' ')
}

pub open spec fn pad_right(s: Seq<char>, w: int) -> Seq<char> {
    s + spaces(w - s.len())
}

pub open spec fn pad_left(s: Seq<char>, w: int) -> Seq<char> {
    spaces(w - s.len()) + s
}

pub open spec fn marker(is_head: bool) -> Seq<char> {
    if is_head {
        seq!['*', ' ']
    } else {
        seq![' ', ' ']
    }
}

pub open spec fn tone_of(is_head: bool) -> Tone {
    if is_head {
        Tone::Head
    } else {
        Tone::Other
    }
}

/// Whether the options leave this branch out of the report.
pub open spec fn suppressed(b: (Seq<char>, bool), options: RenderOptions) -> bool {
    options.hide_master_stable && !b.1 && (b.0 == "master"@ || b.0 == "stable"@)
}

/// What follows the separator on a branch's line.
pub open spec fn branch_field(
    b: (Seq<char>, bool),
    state: RepositoryState,
    layout: Layout,
    options: RenderOptions,
) -> Seq<char> {
    if !options.show_state {
        b.0
    } else if b.1 {
        pad_right(b.0, layout.max_branch_name_width as int) + seq![' '] + pad_left(
            state_label(state),
            layout.max_state_label_width as int,
        )
    } else {
        pad_right(b.0, layout.max_branch_name_width as int)
    }
}

/// The segments of one branch's line; none where the branch is left out.
pub open spec fn line(
    name: Seq<char>,
    b: (Seq<char>, bool),
    state: RepositoryState,
    layout: Layout,
    options: RenderOptions,
) -> Seq<(Tone, Seq<char>)> {
    if suppressed(b, options) {
        Seq::empty()
    } else {
        seq![
            (tone_of(b.1), marker(b.1) + pad_right(name, NAME_FIELD_WIDTH as int) + seq![' ']),
            (Tone::Neutral, seq!['|']),
            (tone_of(b.1), seq![' '] + branch_field(b, state, layout, options) + seq!['\n']),
        ]
    }
}

/// The lines of the first `k` branches of a repository.
pub open spec fn lines_upto(r: RepoModel, layout: Layout, options: RenderOptions, k: int) -> Seq<
    (Tone, Seq<char>),
>
    decreases k,
{
    if k <= 0 {
        Seq::empty()
    } else {
        lines_upto(r, layout, options, k - 1) + line(r.0, r.1[k - 1], r.2, layout, options)
    }
}

pub open spec fn divider(layout: Layout) -> Seq<char> {
    Seq::new(layout.divider_width as nat, |k: int| '-') + seq!['\n']
}

/// The segment that opens the block of the `i`-th repository: a colour reset,
/// and a divider before every block but the first.
pub open spec fn block_start(i: int, layout: Layout) -> (Tone, Seq<char>) {
    if i == 0 {
        (Tone::Reset, Seq::empty())
    } else {
        (Tone::Reset, divider(layout))
    }
}

pub open spec fn block(i: int, r: RepoModel, layout: Layout, options: RenderOptions) -> Seq<
    (Tone, Seq<char>),
> {
    seq![block_start(i, layout)] + lines_upto(r, layout, options, r.1.len() as int)
}

/// The blocks of the first `n` repositories.
pub open spec fn render_upto(s: Seq<RepoModel>, layout: Layout, options: RenderOptions, n: int) -> Seq<
    (Tone, Seq<char>),
>
    decreases n,
{
    if n <= 0 {
        Seq::empty()
    } else {
        render_upto(s, layout, options, n - 1) + block(n - 1, s[n - 1], layout, options)
    }
}

/// The whole report: each repository's block in order, then a final reset.
pub open spec fn report(s: Seq<RepoModel>, layout: Layout, options: RenderOptions) -> Seq<
    (Tone, Seq<char>),
> {
    render_upto(s, layout, options, s.len() as int) + seq![(Tone::Reset, Seq::<char>::empty())]
}

pub open spec fn segment_views(v: Seq<Segment>) -> Seq<(Tone, Seq<char>)> {
    v.map_values(|s: Segment| s@)
}

/// The report depends on its inputs alone: the same reports, layout and
/// options give the same segments.
pub proof fn lemma_report_deterministic(
    a: Seq<RepoModel>,
    b: Seq<RepoModel>,
    layout: Layout,
    options: RenderOptions,
)
    requires
        a =~= b,
    ensures
        report(a, layout, options) == report(b, layout, options),
{
}

/// A head branch always has its line, whatever the options: only branches
/// that are not head are ever left out.
pub proof fn lemma_head_always_shown(
    name: Seq<char>,
    b: (Seq<char>, bool),
    state: RepositoryState,
    layout: Layout,
    options: RenderOptions,
)
    requires
        b.1,
    ensures
        line(name, b, state, layout, options).len() == 3,
        line(name, b, state, layout, options)[0].1 == seq!['*', ' '] + pad_right(
            name,
            NAME_FIELD_WIDTH as int,
        ) + seq![' '],
{
}

/// A repository without branches adds its opening segment and nothing else.
pub proof fn lemma_empty_repo_block(i: int, r: RepoModel, layout: Layout, options: RenderOptions)
    requires
        r.1.len() == 0,
    ensures
        block(i, r, layout, options) == seq![block_start(i, layout)],
{
    assert(block(i, r, layout, options) =~= seq![block_start(i, layout)]);
}

fn push_spaces(s: &mut String, n: usize)
    ensures
        final(s)@ == old(s)@ + spaces(n as int),
{
    let ghost start = s@;
    let mut k: usize = 0;
    while k < n
        invariant
            k <= n,
            s@ == start + spaces(k as int),
        decreases n - k,
    {
        proof {
            reveal_strlit(" ");
        }
        s.append(" ");
        assert(start + spaces(k + 1) =~= start + spaces(k as int) + " "@);
        k = k + 1;
    }
}

/// Appends `text` padded with spaces on the right to at least `w` characters.
fn push_padded_right(s: &mut String, text: &str, w: usize)
    ensures
        final(s)@ == old(s)@ + pad_right(text@, w as int),
{
    let ghost start = s@;
    s.append(text);
    let l = text.unicode_len();
    if l < w {
        push_spaces(s, w - l);
    } else {
        push_spaces(s, 0);
    }
    assert(s@ =~= start + pad_right(text@, w as int));
}

/// Appends `text` padded with spaces on the left to at least `w` characters.
fn push_padded_left(s: &mut String, text: &str, w: usize)
    ensures
        final(s)@ == old(s)@ + pad_left(text@, w as int),
{
    let ghost start = s@;
    let l = text.unicode_len();
    if l < w {
        push_spaces(s, w - l);
    } else {
        push_spaces(s, 0);
    }
    s.append(text);
    assert(s@ =~= start + pad_left(text@, w as int));
}

/// Whether two texts are equal, character by character.
fn same_text(a: &str, b: &str) -> (r: bool)
    ensures
        r == (a@ == b@),
{
    let la = a.unicode_len();
    let lb = b.unicode_len();
    if la != lb {
        return false;
    }
    let mut i: usize = 0;
    while i < la
        invariant
            la == a@.len(),
            lb == b@.len(),
            la == lb,
            i <= la,
            a@.subrange(0, i as int) == b@.subrange(0, i as int),
        decreases la - i,
    {
        if a.get_char(i) != b.get_char(i) {
            return false;
        }
        assert(a@.subrange(0, i + 1) =~= a@.subrange(0, i as int).push(a@[i as int]));
        assert(b@.subrange(0, i + 1) =~= b@.subrange(0, i as int).push(b@[i as int]));
        i = i + 1;
    }
    assert(a@ =~= a@.subrange(0, i as int));
    assert(b@ =~= b@.subrange(0, i as int));
    true
}

fn is_suppressed(b: &Branch, options: RenderOptions) -> (r: bool)
    ensures
        r == suppressed(b@, options),
{
    options.hide_master_stable && !b.is_head && (same_text(b.name.as_str(), "master")
        || same_text(b.name.as_str(), "stable"))
}

/// Appends the segments of one branch's line.
fn push_line(
    out: &mut Vec<Segment>,
    name: &str,
    b: &Branch,
    state: RepositoryState,
    layout: &Layout,
    options: RenderOptions,
)
    ensures
        segment_views(final(out)@) == segment_views(old(out)@) + line(
            name@,
            b@,
            state,
            *layout,
            options,
        ),
{
    if is_suppressed(b, options) {
        assert(segment_views(out@) =~= segment_views(out@) + Seq::<(Tone, Seq<char>)>::empty());
        return ;
    }
    let ghost start = segment_views(out@);
    proof {
        reveal_strlit("* ");
        reveal_strlit("  ");
        reveal_strlit(" ");
        reveal_strlit("|");
        reveal_strlit("\n");
    }
    let tone = if b.is_head {
        Tone::Head
    } else {
        Tone::Other
    };
    let mut first = String::new();
    if b.is_head {
        first.append("* ");
    } else {
        first.append("  ");
    }
    push_padded_right(&mut first, name, NAME_FIELD_WIDTH);
    first.append(" ");
    let mut last = String::from_str(" ");
    if options.show_state {
        push_padded_right(&mut last, b.name.as_str(), layout.max_branch_name_width);
        if b.is_head {
            last.append(" ");
            push_padded_left(&mut last, state.label(), layout.max_state_label_width);
        }
    } else {
        last.append(b.name.as_str());
    }
    last.append("\n");
    let ghost first_v = first@;
    let ghost last_v = last@;
    assert(first_v =~= marker(b.is_head) + pad_right(name@, NAME_FIELD_WIDTH as int) + seq![' ']);
    assert(last_v =~= seq![' '] + branch_field(b@, state, *layout, options) + seq!['\n']);
    out.push(Segment { tone, text: first });
    assert(segment_views(out@) =~= start.push((tone, first_v)));
    let bar = String::from_str("|");
    assert(bar@ =~= seq!['|']);
    out.push(Segment { tone: Tone::Neutral, text: bar });
    assert(segment_views(out@) =~= start.push((tone, first_v)).push((Tone::Neutral, seq!['|'])));
    out.push(Segment { tone, text: last });
    assert(segment_views(out@) =~= start.push((tone, first_v)).push((Tone::Neutral, seq!['|'])).push(
        (tone, last_v),
    ));
    assert(segment_views(out@) =~= start + line(name@, b@, state, *layout, options));
}

/// The divider line: `divider_width` dashes and a line break.
fn divider_text(layout: &Layout) -> (r: String)
    ensures
        r@ == divider(*layout),
{
    proof {
        reveal_strlit("-");
        reveal_strlit("\n");
    }
    let mut s = String::new();
    let mut k: usize = 0;
    while k < layout.divider_width
        invariant
            k <= layout.divider_width,
            s@ == Seq::new(k as nat, |x: int| '-'),
        decreases layout.divider_width - k,
    {
        proof {
            reveal_strlit("-");
        }
        s.append("-");
        assert(Seq::new((k + 1) as nat, |x: int| '-') =~= Seq::new(k as nat, |x: int| '-') + "-"@);
        k = k + 1;
    }
    s.append("\n");
    s
}

/// Renders the report: for each repository in order a colour reset (with a
/// divider before all but the first), then one line per branch shown; a
/// final reset closes it.
pub fn render(reports: &Vec<RepoReport>, layout: &Layout, options: RenderOptions) -> (r: Vec<
    Segment,
>)
    ensures
        segment_views(r@) == report(models(reports@), *layout, options),
{
    let ghost all = models(reports@);
    let mut out: Vec<Segment> = Vec::new();
    let mut i: usize = 0;
    assert(segment_views(out@) =~= Seq::<(Tone, Seq<char>)>::empty());
    while i < reports.len()
        invariant
            i <= reports@.len(),
            all == models(reports@),
            segment_views(out@) == render_upto(all, *layout, options, i as int),
        decreases reports.len() - i,
    {
        let rep = &reports[i];
        assert(all[i as int] == rep@);
        let ghost before_block = segment_views(out@);
        let opening = if i == 0 {
            String::new()
        } else {
            divider_text(layout)
        };
        out.push(Segment { tone: Tone::Reset, text: opening });
        assert(segment_views(out@) =~= before_block + seq![block_start(i as int, *layout)]);
        let mut j: usize = 0;
        while j < rep.branches.len()
            invariant
                j <= rep.branches@.len(),
                rep@ == all[i as int],
                segment_views(out@) == before_block + seq![block_start(i as int, *layout)]
                    + lines_upto(rep@, *layout, options, j as int),
            decreases rep.branches.len() - j,
        {
            push_line(&mut out, rep.name.as_str(), &rep.branches[j], rep.state, layout, options);
            assert(rep@.1[j as int] == rep.branches@[j as int]@);
            assert(segment_views(out@) =~= before_block + seq![block_start(i as int, *layout)]
                + lines_upto(rep@, *layout, options, j + 1));
            j = j + 1;
        }
        assert(segment_views(out@) =~= render_upto(all, *layout, options, i + 1));
        i = i + 1;
    }
    out.push(Segment { tone: Tone::Reset, text: String::new() });
    assert(segment_views(out@) =~= report(all, *layout, options));
    out
}

} // verus!
