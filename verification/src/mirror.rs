//! What the copy of a tree does when every step is answered as the tree
//! says: it mirrors the tree, entry by entry, under the same relative paths.

use crate::path::{join_path, SEPARATOR};
use crate::util::{
    copy_start, copy_step, resume, stepped, CopyOutcomeView, CopyProgressView, CopyStepView,
    EntryView, FrameView, PendingView, TreeCopyView,
};
use vstd::prelude::*;

verus! {

/// A tree of files, as a model: a file, or a directory with what it
/// holds, in the order in which it is listed. Each carries its name.
pub enum Tree {
    File { name: Seq<char> },
    Dir { name: Seq<char>, children: Seq<Tree> },
}

/// The name of the root of a tree.
pub open spec fn tree_name(tree: Tree) -> Seq<char> {
    match tree {
        Tree::File { name } => name,
        Tree::Dir { name, .. } => name,
    }
}

/// The listing of a directory that holds `children`.
pub open spec fn listing_of(children: Seq<Tree>) -> Seq<EntryView> {
    children.map_values(|t: Tree| EntryView { name: tree_name(t), is_dir: t is Dir })
}

/// A step and the outcome that answers it.
pub struct Exchange {
    pub step: CopyStepView,
    pub outcome: CopyOutcomeView,
}

/// The steps of a list of exchanges.
pub open spec fn steps_of(script: Seq<Exchange>) -> Seq<CopyStepView> {
    script.map_values(|x: Exchange| x.step)
}

/// The outcomes of a list of exchanges.
pub open spec fn outcomes_of(script: Seq<Exchange>) -> Seq<CopyOutcomeView> {
    script.map_values(|x: Exchange| x.outcome)
}

/// What mirrors the entries of `children` from `k` on, where `children` is
/// what the directory `from` holds and `to` is its mirror: a file is
/// copied under its name; a directory is created under its name and
/// listed, and its entries are mirrored in turn, before the next entry.
pub open spec fn entries_script(children: Seq<Tree>, k: int, from: Seq<char>, to: Seq<char>) -> Seq<
    Exchange,
>
    decreases children, children.len() - k,
{
    if k < 0 || k >= children.len() {
        Seq::empty()
    } else {
        let source = join_path(from, tree_name(children[k]));
        let mirror = join_path(to, tree_name(children[k]));
        let first = match children[k] {
            Tree::File { .. } => seq![
                Exchange {
                    step: CopyStepView::CopyFile { from: source, to: mirror },
                    outcome: CopyOutcomeView::Done,
                },
            ],
            Tree::Dir { children: inner, .. } => seq![
                Exchange {
                    step: CopyStepView::CreateDir { path: mirror },
                    outcome: CopyOutcomeView::Done,
                },
                Exchange {
                    step: CopyStepView::List { dir: source },
                    outcome: CopyOutcomeView::Listed(listing_of(inner)),
                },
            ] + entries_script(inner, 0, source, mirror),
        };
        first + entries_script(children, k + 1, from, to)
    }
}

/// What mirrors the directory `from`, which holds `children`, into `to`:
/// `from` is listed, then its entries are mirrored. Every file and every
/// directory of the tree has its step, under the path below `to` that it
/// has below `from`.
pub open spec fn mirror_script(children: Seq<Tree>, from: Seq<char>, to: Seq<char>) -> Seq<
    Exchange,
> {
    seq![
        Exchange {
            step: CopyStepView::List { dir: from },
            outcome: CopyOutcomeView::Listed(listing_of(children)),
        },
    ] + entries_script(children, 0, from, to)
}

/// Where the copy `p` stands after the outcome `o`. A copy that is over
/// stays as it is.
pub open spec fn copy_after(p: CopyProgressView, o: CopyOutcomeView) -> CopyProgressView {
    match p {
        CopyProgressView::Next(s, _) => copy_step(s, o),
        _ => p,
    }
}

/// Where the copy `p` stands after each of `outcomes` in turn.
pub open spec fn copy_end(p: CopyProgressView, outcomes: Seq<CopyOutcomeView>) -> CopyProgressView
    decreases outcomes.len(),
{
    if outcomes.len() == 0 {
        p
    } else {
        copy_end(copy_after(p, outcomes.first()), outcomes.drop_first())
    }
}

/// The steps that the copy `p` hands out while each of `outcomes` answers
/// the step before it, up to the end of the copy.
pub open spec fn copy_steps(p: CopyProgressView, outcomes: Seq<CopyOutcomeView>) -> Seq<
    CopyStepView,
>
    decreases outcomes.len(),
{
    if outcomes.len() == 0 {
        Seq::empty()
    } else {
        match p {
            CopyProgressView::Next(_, step) => seq![step] + copy_steps(
                copy_after(p, outcomes.first()),
                outcomes.drop_first(),
            ),
            _ => Seq::empty(),
        }
    }
}

/// A copy that goes on hands out its step, takes `o`, and goes on from
/// where it then stands.
proof fn lemma_copy_unfold(
    s: TreeCopyView,
    step: CopyStepView,
    o: CopyOutcomeView,
    more: Seq<CopyOutcomeView>,
)
    ensures
        copy_end(CopyProgressView::Next(s, step), seq![o] + more) == copy_end(
            copy_step(s, o),
            more,
        ),
        copy_steps(CopyProgressView::Next(s, step), seq![o] + more) == seq![step] + copy_steps(
            copy_step(s, o),
            more,
        ),
{
    let all = seq![o] + more;
    assert(all.first() == o);
    assert(all.drop_first() == more);
}

/// A copy that turns to a directory whose entries from `k` on are those of
/// `children`, and that is answered as the script of these entries says,
/// hands out the steps of that script, and then stands where it stands
/// when it turns to the directories around.
proof fn lemma_entries_are_mirrored(
    stack: Seq<FrameView>,
    children: Seq<Tree>,
    k: int,
    from: Seq<char>,
    to: Seq<char>,
    more: Seq<CopyOutcomeView>,
)
    requires
        0 <= k <= children.len(),
    ensures
        copy_end(
            resume(stack.push(FrameView { from, to, entries: listing_of(children), next: k as nat })),
            outcomes_of(entries_script(children, k, from, to)) + more,
        ) == copy_end(resume(stack), more),
        copy_steps(
            resume(stack.push(FrameView { from, to, entries: listing_of(children), next: k as nat })),
            outcomes_of(entries_script(children, k, from, to)) + more,
        ) == steps_of(entries_script(children, k, from, to)) + copy_steps(resume(stack), more),
    decreases children, children.len() - k,
{
    let frame = FrameView { from, to, entries: listing_of(children), next: k as nat };
    let here = stack.push(frame);
    let script = entries_script(children, k, from, to);
    assert(here.last() == frame);
    assert(here.drop_last() == stack);
    if k == children.len() {
        assert(outcomes_of(script) + more == more);
        assert(steps_of(script) + copy_steps(resume(stack), more) == copy_steps(
            resume(stack),
            more,
        ));
    } else {
        let source = join_path(from, tree_name(children[k]));
        let mirror = join_path(to, tree_name(children[k]));
        let after = stack.push(FrameView { next: (k + 1) as nat, ..frame });
        assert(after == here.drop_last().push(stepped(frame)));
        let tail = entries_script(children, k + 1, from, to);
        let rest = outcomes_of(tail) + more;
        lemma_entries_are_mirrored(stack, children, k + 1, from, to, more);
        match children[k] {
            Tree::File { .. } => {
                let x = Exchange {
                    step: CopyStepView::CopyFile { from: source, to: mirror },
                    outcome: CopyOutcomeView::Done,
                };
                assert(script == seq![x] + tail);
                assert(outcomes_of(script) + more == seq![CopyOutcomeView::Done] + rest);
                assert(steps_of(script) == seq![x.step] + steps_of(tail));
                let s = TreeCopyView {
                    stack: after,
                    pending: PendingView::Copying { from: source, to: mirror },
                };
                assert(resume(here) == CopyProgressView::Next(s, x.step));
                lemma_copy_unfold(s, x.step, CopyOutcomeView::Done, rest);
                assert(copy_step(s, CopyOutcomeView::Done) == resume(after));
                assert(seq![x.step] + (steps_of(tail) + copy_steps(resume(stack), more)) == (seq![
                    x.step,
                ] + steps_of(tail)) + copy_steps(resume(stack), more));
            },
            Tree::Dir { children: inner, .. } => {
                let create = Exchange {
                    step: CopyStepView::CreateDir { path: mirror },
                    outcome: CopyOutcomeView::Done,
                };
                let list = Exchange {
                    step: CopyStepView::List { dir: source },
                    outcome: CopyOutcomeView::Listed(listing_of(inner)),
                };
                let within = entries_script(inner, 0, source, mirror);
                assert(script == (seq![create, list] + within) + tail);
                let s1 = TreeCopyView {
                    stack: after,
                    pending: PendingView::Creating { from: source, to: mirror },
                };
                let s2 = TreeCopyView {
                    stack: after,
                    pending: PendingView::Listing { from: source, to: mirror },
                };
                assert(resume(here) == CopyProgressView::Next(s1, create.step));
                assert(copy_step(s1, create.outcome) == CopyProgressView::Next(s2, list.step));
                let inner_frame = FrameView {
                    from: source,
                    to: mirror,
                    entries: listing_of(inner),
                    next: 0,
                };
                assert(copy_step(s2, list.outcome) == resume(after.push(inner_frame)));
                let rest1 = seq![list.outcome] + (outcomes_of(within) + rest);
                assert(outcomes_of(script) + more == seq![create.outcome] + rest1);
                lemma_copy_unfold(s1, create.step, create.outcome, rest1);
                lemma_copy_unfold(s2, list.step, list.outcome, outcomes_of(within) + rest);
                lemma_entries_are_mirrored(after, inner, 0, source, mirror, rest);
                assert(steps_of(script) == seq![create.step] + (seq![list.step] + (steps_of(within)
                    + steps_of(tail))));
                let end = copy_steps(resume(stack), more);
                assert(seq![create.step] + (seq![list.step] + (steps_of(within) + (steps_of(tail)
                    + end))) == (seq![create.step] + (seq![list.step] + (steps_of(within)
                    + steps_of(tail)))) + end);
            },
        }
    }
}

/// Mirroring a tree. A copy of the directory `from`, which holds
/// `children`, into `to`, whose every step is answered as the tree says,
/// hands out the steps of `mirror_script`, in that order, and none besides,
/// and is then finished.
pub proof fn lemma_copy_mirrors_the_tree(children: Seq<Tree>, from: Seq<char>, to: Seq<char>)
    ensures
        copy_steps(copy_start(from, to), outcomes_of(mirror_script(children, from, to)))
            == steps_of(mirror_script(children, from, to)),
        copy_end(copy_start(from, to), outcomes_of(mirror_script(children, from, to)))
            is Finished,
{
    let list = Exchange {
        step: CopyStepView::List { dir: from },
        outcome: CopyOutcomeView::Listed(listing_of(children)),
    };
    let within = entries_script(children, 0, from, to);
    let s = TreeCopyView { stack: Seq::empty(), pending: PendingView::Listing { from, to } };
    let none = Seq::<CopyOutcomeView>::empty();
    let frame = FrameView { from, to, entries: listing_of(children), next: 0 };
    assert(outcomes_of(mirror_script(children, from, to)) == seq![list.outcome] + (outcomes_of(
        within,
    ) + none));
    assert(steps_of(mirror_script(children, from, to)) == seq![list.step] + steps_of(within));
    lemma_copy_unfold(s, list.step, list.outcome, outcomes_of(within) + none);
    assert(copy_step(s, list.outcome) == resume(Seq::<FrameView>::empty().push(frame)));
    lemma_entries_are_mirrored(Seq::empty(), children, 0, from, to, none);
    assert(steps_of(within) + copy_steps(resume(Seq::<FrameView>::empty()), none) == steps_of(
        within,
    ));
}

/// Whether `step` is about the path `rel` below the two roots: it lists
/// `rel` below `from`, creates `rel` below `to`, or copies `rel` below
/// `from` to `rel` below `to`.
pub open spec fn step_at(step: CopyStepView, from: Seq<char>, to: Seq<char>, rel: Seq<char>) -> bool {
    match step {
        CopyStepView::List { dir } => dir == from + rel,
        CopyStepView::CreateDir { path } => path == to + rel,
        CopyStepView::CopyFile { from: source, to: mirror } => source == from + rel && mirror == to
            + rel,
    }
}

/// Whether `step` keeps to one path below the two roots.
pub open spec fn keeps_path(step: CopyStepView, from: Seq<char>, to: Seq<char>) -> bool {
    exists|rel: Seq<char>| step_at(step, from, to, rel)
}

/// A step that keeps to a path below the directories `name` of two roots
/// keeps to a path below the roots.
proof fn lemma_keeps_path_below(step: CopyStepView, from: Seq<char>, to: Seq<char>, name: Seq<char>)
    requires
        keeps_path(step, join_path(from, name), join_path(to, name)),
    ensures
        keeps_path(step, from, to),
{
    let rel = choose|rel: Seq<char>| step_at(step, join_path(from, name), join_path(to, name), rel);
    let deeper = SEPARATOR@ + name + rel;
    assert(join_path(from, name) + rel == from + deeper);
    assert(join_path(to, name) + rel == to + deeper);
    assert(step_at(step, from, to, deeper));
}

/// Every step that mirrors the entries of a directory is about one path
/// below the source and the destination.
proof fn lemma_entries_keep_relative_paths(
    children: Seq<Tree>,
    k: int,
    from: Seq<char>,
    to: Seq<char>,
)
    requires
        0 <= k <= children.len(),
    ensures
        forall|i: int|
            0 <= i < entries_script(children, k, from, to).len() ==> keeps_path(
                (#[trigger] entries_script(children, k, from, to)[i]).step,
                from,
                to,
            ),
    decreases children, children.len() - k,
{
    let script = entries_script(children, k, from, to);
    if k < children.len() {
        let name = tree_name(children[k]);
        let source = join_path(from, name);
        let mirror = join_path(to, name);
        let rel = SEPARATOR@ + name;
        assert(source == from + rel);
        assert(mirror == to + rel);
        let tail = entries_script(children, k + 1, from, to);
        lemma_entries_keep_relative_paths(children, k + 1, from, to);
        match children[k] {
            Tree::File { .. } => {
                assert forall|i: int| 0 <= i < script.len() implies keeps_path(
                    (#[trigger] script[i]).step,
                    from,
                    to,
                ) by {
                    if i == 0 {
                        assert(step_at(script[0].step, from, to, rel));
                    } else {
                        assert(script[i] == tail[i - 1]);
                    }
                }
            },
            Tree::Dir { children: inner, .. } => {
                let within = entries_script(inner, 0, source, mirror);
                lemma_entries_keep_relative_paths(inner, 0, source, mirror);
                assert forall|i: int| 0 <= i < script.len() implies keeps_path(
                    (#[trigger] script[i]).step,
                    from,
                    to,
                ) by {
                    if i < 2 {
                        assert(step_at(script[i].step, from, to, rel));
                    } else if i < 2 + within.len() {
                        assert(script[i] == within[i - 2]);
                        lemma_keeps_path_below(within[i - 2].step, from, to, name);
                    } else {
                        assert(script[i] == tail[i - 2 - within.len()]);
                    }
                }
            },
        }
    }
}

/// Mirroring keeps the relative paths: every step of the script of a tree
/// is about one path below the source and the destination. A file is
/// copied to the path below `to` that it has below `from`.
pub proof fn lemma_script_keeps_relative_paths(children: Seq<Tree>, from: Seq<char>, to: Seq<char>)
    ensures
        forall|i: int|
            0 <= i < mirror_script(children, from, to).len() ==> keeps_path(
                (#[trigger] mirror_script(children, from, to)[i]).step,
                from,
                to,
            ),
{
    let whole = mirror_script(children, from, to);
    let script = entries_script(children, 0, from, to);
    lemma_entries_keep_relative_paths(children, 0, from, to);
    assert forall|i: int| 0 <= i < whole.len() implies keeps_path(
        (#[trigger] whole[i]).step,
        from,
        to,
    ) by {
        if i == 0 {
            assert(from + Seq::<char>::empty() == from);
            assert(step_at(whole[0].step, from, to, Seq::<char>::empty()));
        } else {
            assert(whole[i] == script[i - 1]);
        }
    }
}

} // verus!
