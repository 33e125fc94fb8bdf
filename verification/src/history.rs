//! What holds of every run, whatever the outcomes of its steps: a failed
//! preparation leaves the destination alone, every run ends, and a finished
//! run has published.

use crate::loader::{article_of, articles_of, SourceFileView};
use crate::order::{distinct_slugs, lemma_sort_ignores_load_order};
use crate::pipeline::{
    accepted, pages_of, preparing, start_spec, step, ActionView, AssemblerView, OutcomeView,
    Phase, ProgressView,
};
use crate::ConfigView;
use vstd::prelude::*;
use vstd::seq_lib::{
    to_multiset_build, to_multiset_contains, to_multiset_insert, to_multiset_len,
    to_multiset_remove,
};

verus! {

/// Whether the action of `p`, if it has one, names the destination: to
/// clear it, or to publish to it.
pub open spec fn touches_destination(p: ProgressView) -> bool {
    match p {
        ProgressView::Next(_, action) => action is ClearDestination || action is Publish,
        _ => false,
    }
}

/// Whether the run goes on and waits for a step of the preparation.
pub open spec fn in_preparation(p: ProgressView) -> bool {
    match p {
        ProgressView::Next(s, _) => preparing(s.phase),
        _ => false,
    }
}

/// Whether the run goes on and the step that it waits for ends with `o`
/// without being done.
pub open spec fn fails_on(p: ProgressView, o: OutcomeView) -> bool {
    match p {
        ProgressView::Next(s, _) => !accepted(s.phase, o),
        _ => false,
    }
}

/// Where the run `p` stands after the outcome `o`. A run that is over
/// stays as it is.
pub open spec fn after(p: ProgressView, o: OutcomeView) -> ProgressView {
    match p {
        ProgressView::Next(s, _) => step(s, o),
        _ => p,
    }
}

/// Where the run stands at each moment: `p` itself, then where it stands
/// after each of `outcomes` in turn.
pub open spec fn history(p: ProgressView, outcomes: Seq<OutcomeView>) -> Seq<ProgressView>
    decreases outcomes.len(),
{
    if outcomes.len() == 0 {
        seq![p]
    } else {
        seq![p] + history(after(p, outcomes.first()), outcomes.drop_first())
    }
}

/// The kind of the action is that of the step that the run waits for.
pub open spec fn action_fits(p: ProgressView) -> bool {
    match p {
        ProgressView::Next(s, action) => match s.phase {
            Phase::ClearingStaging => action is ClearStaging,
            Phase::CreatingStaging => action is CreateDir,
            Phase::CreatingPagesDir => action is CreateDir,
            Phase::WritingStylesheet => action is WriteDefaultStylesheet,
            Phase::Loading => action is LoadArticles,
            Phase::WritingPages => action is WritePages,
            Phase::CopyingAssets => action is CopyAssets,
            Phase::CopyingStylesheet => action is CopyStylesheet,
            Phase::ClearingDestination => action is ClearDestination,
            Phase::Publishing => action is Publish,
            Phase::CleaningUp => action is RemoveDefaultStylesheet,
        },
        _ => true,
    }
}

/// Every step hands out the action of the step that the run then waits
/// for, and so does the start.
pub proof fn lemma_action_fits(s: AssemblerView, o: OutcomeView)
    ensures
        action_fits(step(s, o)),
        action_fits(start_spec(s.config, s.staging_dir, s.default_css)),
{
}

/// The history has one entry more than there are outcomes, and begins
/// with `p`.
pub proof fn lemma_history_len(p: ProgressView, outcomes: Seq<OutcomeView>)
    ensures
        history(p, outcomes).len() == outcomes.len() + 1,
        history(p, outcomes)[0] == p,
    decreases outcomes.len(),
{
    if outcomes.len() > 0 {
        lemma_history_len(after(p, outcomes.first()), outcomes.drop_first());
    }
}

/// Each entry of the history but the first is where the one before it
/// stands after its outcome; its action fits if that of `p` does.
pub proof fn lemma_history_step(p: ProgressView, outcomes: Seq<OutcomeView>, k: int)
    requires
        0 <= k < outcomes.len(),
    ensures
        history(p, outcomes).len() == outcomes.len() + 1,
        history(p, outcomes)[k + 1] == after(history(p, outcomes)[k], outcomes[k]),
        action_fits(p) ==> action_fits(history(p, outcomes)[k]) && action_fits(
            history(p, outcomes)[k + 1],
        ),
    decreases outcomes.len(),
{
    let next = after(p, outcomes.first());
    let rest = outcomes.drop_first();
    lemma_history_len(p, outcomes);
    lemma_history_len(next, rest);
    if let ProgressView::Next(s, _) = p {
        lemma_action_fits(s, outcomes.first());
    }
    if k > 0 {
        lemma_history_step(next, rest, k - 1);
        assert(history(p, outcomes)[k + 1] == history(next, rest)[k]);
        assert(history(p, outcomes)[k] == history(next, rest)[k - 1]);
        assert(rest[k - 1] == outcomes[k]);
    } else {
        assert(history(p, outcomes)[1] == history(next, rest)[0]);
    }
}

/// A run that has left the preparation does not come back to it, and a run
/// that is still in it has been in it all along.
pub proof fn lemma_preparation_comes_first(
    p: ProgressView,
    outcomes: Seq<OutcomeView>,
    i: int,
    j: int,
)
    requires
        0 <= i <= j <= outcomes.len(),
        in_preparation(history(p, outcomes)[j]),
    ensures
        in_preparation(history(p, outcomes)[i]),
    decreases j - i,
{
    if i < j {
        lemma_history_step(p, outcomes, j - 1);
        lemma_preparation_comes_first(p, outcomes, i, j - 1);
    }
}

/// Once a run is over it stays over: nothing follows its end.
pub proof fn lemma_end_is_final(p: ProgressView, outcomes: Seq<OutcomeView>, i: int, j: int)
    requires
        0 <= i <= j <= outcomes.len(),
        !(history(p, outcomes)[i] is Next),
    ensures
        history(p, outcomes)[j] == history(p, outcomes)[i],
    decreases j - i,
{
    if i < j {
        lemma_end_is_final(p, outcomes, i, j - 1);
        lemma_history_step(p, outcomes, j - 1);
    }
}

/// Failure isolation. When a step of the preparation fails, the run is
/// over, and no action of the whole run, before or after, names the
/// destination: what was published before the run stays as it was.
pub proof fn lemma_failed_preparation_spares_destination(
    config: ConfigView,
    staging_dir: Seq<char>,
    default_css: Seq<char>,
    outcomes: Seq<OutcomeView>,
    i: int,
)
    requires
        0 <= i < outcomes.len(),
        in_preparation(history(start_spec(config, staging_dir, default_css), outcomes)[i]),
        fails_on(history(start_spec(config, staging_dir, default_css), outcomes)[i], outcomes[i]),
    ensures
        history(start_spec(config, staging_dir, default_css), outcomes)[i + 1] is Failed,
        forall|j: int|
            0 <= j <= outcomes.len() ==> !touches_destination(
                #[trigger] history(start_spec(config, staging_dir, default_css), outcomes)[j],
            ),
{
    let p = start_spec(config, staging_dir, default_css);
    let h = history(p, outcomes);
    lemma_history_step(p, outcomes, i);
    assert(action_fits(p));
    assert forall|j: int| 0 <= j <= outcomes.len() implies !touches_destination(#[trigger] h[j]) by {
        if j <= i {
            lemma_preparation_comes_first(p, outcomes, j, i);
            if j < outcomes.len() {
                lemma_history_step(p, outcomes, j);
            } else {
                lemma_history_step(p, outcomes, j - 1);
            }
        } else {
            lemma_end_is_final(p, outcomes, i + 1, j);
        }
    }
}

/// Only a run whose preparation is complete names the destination: when an
/// action does, every step before it was done.
pub proof fn lemma_destination_waits_for_preparation(
    config: ConfigView,
    staging_dir: Seq<char>,
    default_css: Seq<char>,
    outcomes: Seq<OutcomeView>,
    i: int,
    j: int,
)
    requires
        0 <= i < j <= outcomes.len(),
        touches_destination(history(start_spec(config, staging_dir, default_css), outcomes)[j]),
    ensures
        !fails_on(history(start_spec(config, staging_dir, default_css), outcomes)[i], outcomes[i]),
{
    let p = start_spec(config, staging_dir, default_css);
    let h = history(p, outcomes);
    lemma_history_step(p, outcomes, i);
    if fails_on(h[i], outcomes[i]) {
        lemma_end_is_final(p, outcomes, i + 1, j);
    }
}

/// How far a run has come: the number of the step that it waits for.
pub open spec fn rank(phase: Phase) -> nat {
    match phase {
        Phase::ClearingStaging => 0,
        Phase::CreatingStaging => 1,
        Phase::CreatingPagesDir => 2,
        Phase::WritingStylesheet => 3,
        Phase::Loading => 4,
        Phase::WritingPages => 5,
        Phase::CopyingAssets => 6,
        Phase::CopyingStylesheet => 7,
        Phase::ClearingDestination => 8,
        Phase::Publishing => 9,
        Phase::CleaningUp => 10,
    }
}

/// Whether `p` is of the run that was started with these settings: where
/// it goes on, it has kept them, its action is that of the step that it
/// waits for, and where that step is the publishing, the action renames
/// the staging directory to the destination.
pub open spec fn of_run(
    p: ProgressView,
    config: ConfigView,
    staging_dir: Seq<char>,
    default_css: Seq<char>,
) -> bool {
    match p {
        ProgressView::Next(s, action) => {
            &&& s.config == config
            &&& s.staging_dir == staging_dir
            &&& s.default_css == default_css
            &&& action_fits(p)
            &&& s.phase is Publishing ==> action == (ActionView::Publish {
                from: staging_dir,
                to: config.destination_dir,
            })
        },
        _ => true,
    }
}

/// Every entry of the history of a run is of that run.
pub proof fn lemma_history_of_run(
    config: ConfigView,
    staging_dir: Seq<char>,
    default_css: Seq<char>,
    outcomes: Seq<OutcomeView>,
    k: int,
)
    requires
        0 <= k <= outcomes.len(),
    ensures
        of_run(
            history(start_spec(config, staging_dir, default_css), outcomes)[k],
            config,
            staging_dir,
            default_css,
        ),
    decreases k,
{
    let p = start_spec(config, staging_dir, default_css);
    lemma_history_len(p, outcomes);
    if k > 0 {
        lemma_history_of_run(config, staging_dir, default_css, outcomes, k - 1);
        lemma_history_step(p, outcomes, k - 1);
    }
}

/// A step that does not end the run takes it further.
pub proof fn lemma_step_advances(s: AssemblerView, o: OutcomeView)
    ensures
        step(s, o) matches ProgressView::Next(next, _) ==> rank(next.phase) > rank(s.phase),
{
}

/// From a run that waits for the step `rank`, `11 - rank` outcomes lead
/// to the end.
proof fn lemma_run_ends_from(p: ProgressView, outcomes: Seq<OutcomeView>, k: int)
    requires
        0 <= k <= outcomes.len(),
        p matches ProgressView::Next(s, _) ==> k + rank(s.phase) >= 11,
    ensures
        !(history(p, outcomes)[k] is Next),
    decreases outcomes.len(),
{
    lemma_history_len(p, outcomes);
    match p {
        ProgressView::Next(s, _) => {
            let next = after(p, outcomes.first());
            lemma_step_advances(s, outcomes.first());
            lemma_run_ends_from(next, outcomes.drop_first(), k - 1);
            lemma_history_len(next, outcomes.drop_first());
            assert(history(p, outcomes)[k] == history(next, outcomes.drop_first())[k - 1]);
        },
        _ => {
            lemma_end_is_final(p, outcomes, 0, k);
        },
    }
}

/// Every run ends: after eleven outcomes at the latest it is finished or
/// has failed.
pub proof fn lemma_run_ends(
    config: ConfigView,
    staging_dir: Seq<char>,
    default_css: Seq<char>,
    outcomes: Seq<OutcomeView>,
)
    requires
        outcomes.len() >= 11,
    ensures
        !(history(start_spec(config, staging_dir, default_css), outcomes)[11] is Next),
{
    lemma_run_ends_from(start_spec(config, staging_dir, default_css), outcomes, 11);
}

/// A run that is finished has published: before its end, an action
/// renamed the staging directory to the destination, and the step was
/// done.
pub proof fn lemma_finished_run_has_published(
    config: ConfigView,
    staging_dir: Seq<char>,
    default_css: Seq<char>,
    outcomes: Seq<OutcomeView>,
    j: int,
) -> (i: int)
    requires
        0 <= j <= outcomes.len(),
        history(start_spec(config, staging_dir, default_css), outcomes)[j] is Finished,
    ensures
        0 <= i < j,
        history(start_spec(config, staging_dir, default_css), outcomes)[i] matches ProgressView::Next(
            s,
            action,
        ) && s.phase is Publishing && action == (ActionView::Publish {
            from: staging_dir,
            to: config.destination_dir,
        }) && accepted(s.phase, outcomes[i]),
    decreases j,
{
    let p = start_spec(config, staging_dir, default_css);
    let h = history(p, outcomes);
    lemma_history_len(p, outcomes);
    assert(j > 0);
    lemma_history_step(p, outcomes, j - 1);
    lemma_history_of_run(config, staging_dir, default_css, outcomes, j - 1);
    match h[j - 1] {
        ProgressView::Next(s, _) => {
            if s.phase is Publishing {
                j - 1
            } else {
                assert(s.phase is CleaningUp);
                assert(j - 1 > 0);
                lemma_history_step(p, outcomes, j - 2);
                lemma_history_of_run(config, staging_dir, default_css, outcomes, j - 2);
                j - 2
            }
        },
        _ => lemma_finished_run_has_published(config, staging_dir, default_css, outcomes, j - 1),
    }
}

/// A list that holds what another holds, each as often, still does so when
/// both are mapped.
proof fn lemma_map_permuted<A, B>(a: Seq<A>, b: Seq<A>, f: spec_fn(A) -> B)
    requires
        a.to_multiset() == b.to_multiset(),
    ensures
        a.map_values(f).to_multiset() == b.map_values(f).to_multiset(),
    decreases a.len(),
{
    to_multiset_len(a);
    to_multiset_len(b);
    if a.len() == 0 {
        assert(a.map_values(f) == b.map_values(f));
    } else {
        let x = a.last();
        to_multiset_contains(a, x);
        to_multiset_contains(b, x);
        assert(a.contains(x));
        let j = choose|j: int| 0 <= j < b.len() && b[j] == x;
        let shorter = a.drop_last();
        let without = b.remove(j);
        assert(shorter == a.remove(a.len() - 1));
        to_multiset_remove(a, a.len() - 1);
        to_multiset_remove(b, j);
        lemma_map_permuted(shorter, without, f);
        assert(a.map_values(f) == shorter.map_values(f).push(f(x)));
        to_multiset_build(shorter.map_values(f), f(x));
        assert(b.map_values(f) == without.map_values(f).insert(j, f(x)));
        to_multiset_insert(without.map_values(f), j, f(x));
    }
}

/// The pages do not depend on the order in which the directory listed the
/// markdown files: two lists that hold the same files, no two of which give
/// one slug, give the same pages.
pub proof fn lemma_pages_ignore_listing_order(
    s: AssemblerView,
    a: Seq<SourceFileView>,
    b: Seq<SourceFileView>,
)
    requires
        a.to_multiset() == b.to_multiset(),
        distinct_slugs(articles_of(a)),
    ensures
        pages_of(s, a) == pages_of(s, b),
{
    lemma_map_permuted(a, b, |f: SourceFileView| article_of(f));
    lemma_sort_ignores_load_order(articles_of(a), articles_of(b));
}

/// Whether two outcomes are one outcome, but for the order in which the
/// markdown files were listed: they are equal, or both bring the same
/// files, no two of which give one slug.
pub open spec fn same_outcome(a: OutcomeView, b: OutcomeView) -> bool {
    match (a, b) {
        (OutcomeView::Read(files_a), OutcomeView::Read(files_b)) => files_a.to_multiset()
            == files_b.to_multiset() && distinct_slugs(articles_of(files_a)),
        _ => a == b,
    }
}

/// Running twice gives the same. Two runs that stand alike, and whose steps
/// end alike but for the order in which the markdown files are listed,
/// stand alike after every step: they hand out the same actions, with the
/// same pages, and end alike.
pub proof fn lemma_runs_agree(p: ProgressView, a: Seq<OutcomeView>, b: Seq<OutcomeView>)
    requires
        a.len() == b.len(),
        forall|k: int| 0 <= k < a.len() ==> same_outcome(#[trigger] a[k], b[k]),
    ensures
        history(p, a) == history(p, b),
    decreases a.len(),
{
    if a.len() > 0 {
        assert(same_outcome(a[0], b[0]));
        if let ProgressView::Next(s, _) = p {
            if let OutcomeView::Read(files_a) = a[0] {
                if let OutcomeView::Read(files_b) = b[0] {
                    lemma_pages_ignore_listing_order(s, files_a, files_b);
                }
            }
        }
        assert(after(p, a.first()) == after(p, b.first()));
        assert forall|k: int| 0 <= k < a.drop_first().len() implies same_outcome(
            #[trigger] a.drop_first()[k],
            b.drop_first()[k],
        ) by {
            assert(same_outcome(a[k + 1], b[k + 1]));
        }
        lemma_runs_agree(after(p, a.first()), a.drop_first(), b.drop_first());
    }
}

} // verus!
