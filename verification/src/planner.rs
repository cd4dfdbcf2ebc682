//! Sync planning: which files a deploy or a pull touches, and in what
//! way.
//!
//! The planner works on the candidates the filesystem walk found, each
//! given by its path relative to the enumeration root, and decides
//! per path: copy, skip, or — for a pull that meets the protected path
//! — abort. The walk, the copies and the prompts live outside the
//! engine.

use vstd::prelude::*;
use vstd::seq_lib::group_seq_properties;
use crate::errors::SyncError;
use crate::exclude::{ExcludeMatcher, matches_any};
use crate::paths::is_protected_rel;
use crate::paths::is_protected;

verus! {

/// Deploy copies a candidate unless a pattern excludes it or it is the
/// protected path.
pub open spec fn deploy_copies(patterns: Seq<Seq<char>>, rel: Seq<char>) -> bool {
    !matches_any(patterns, rel) && !is_protected_rel(rel)
}

/// The relative paths a deploy copies, in enumeration order.
pub open spec fn deploy_plan_spec(patterns: Seq<Seq<char>>, cands: Seq<String>) -> Seq<String> {
    cands.filter(|p: String| deploy_copies(patterns, p@))
}

proof fn lemma_filter_push<A>(s: Seq<A>, pred: spec_fn(A) -> bool, x: A)
    ensures
        s.push(x).filter(pred) == s.filter(pred) + (if pred(x) {
            seq![x]
        } else {
            Seq::<A>::empty()
        }),
{
    reveal(Seq::filter);
    assert(s.push(x).drop_last() =~= s);
    assert(s.push(x).last() == x);
    if !pred(x) {
        assert(s.push(x).filter(pred) =~= s.filter(pred) + Seq::<A>::empty());
    }
}

/// Decides which candidates a deploy copies: a candidate is skipped
/// exactly when its relative path matches the exclude predicate or
/// equals the protected path; every other candidate is copied, in
/// order.
pub fn plan_deploy(cands: &Vec<String>, excludes: &ExcludeMatcher) -> (r: Vec<String>)
    ensures
        r@ == deploy_plan_spec(excludes.patterns(), cands@),
{
    let ghost pred = |p: String| deploy_copies(excludes.patterns(), p@);
    let mut out: Vec<String> = Vec::new();
    let mut i: usize = 0;
    while i < cands.len()
        invariant
            i <= cands@.len(),
            out@ == cands@.take(i as int).filter(pred),
            pred == (|p: String| deploy_copies(excludes.patterns(), p@)),
        decreases cands@.len() - i,
    {
        let cand = &cands[i];
        let copy_it = !excludes.is_match(cand.as_str()) && !is_protected(cand.as_str());
        proof {
            assert(cands@.take(i + 1) =~= cands@.take(i as int).push(cands@[i as int]));
            lemma_filter_push(cands@.take(i as int), pred, cands@[i as int]);
        }
        if copy_it {
            out.push(cand.clone());
            proof {
                assert(out@ =~= cands@.take(i + 1).filter(pred));
            }
        } else {
            proof {
                assert(out@ =~= cands@.take(i + 1).filter(pred));
            }
        }
        i += 1;
    }
    proof {
        assert(cands@.take(i as int) =~= cands@);
    }
    out
}

/// Decides a whole deploy: when the emptiness requirement holds and the
/// target directory is neither absent nor empty, the deploy fails
/// before any file is written; otherwise the copy plan is made as
/// [`plan_deploy`] does.
pub fn plan_deploy_checked(
    require_empty: bool,
    target_absent_or_empty: bool,
    cands: &Vec<String>,
    excludes: &ExcludeMatcher,
) -> (r: Result<Vec<String>, SyncError>)
    ensures
        require_empty && !target_absent_or_empty ==> r == Err::<Vec<String>, SyncError>(
            SyncError::NonEmptyTarget,
        ),
        !(require_empty && !target_absent_or_empty) ==> r is Ok && (r->Ok_0)@
            == deploy_plan_spec(excludes.patterns(), cands@),
{
    if require_empty && !target_absent_or_empty {
        Err(SyncError::NonEmptyTarget)
    } else {
        Ok(plan_deploy(cands, excludes))
    }
}

/// Law: a path matching any exclude pattern is never copied by deploy,
/// and the protected path is never copied by deploy, whatever the
/// exclude configuration.
pub proof fn lemma_deploy_never_copies_excluded_or_protected(
    patterns: Seq<Seq<char>>,
    cands: Seq<String>,
)
    ensures
        forall|i: int|
            0 <= i < deploy_plan_spec(patterns, cands).len() ==> !matches_any(
                patterns,
                (#[trigger] deploy_plan_spec(patterns, cands)[i])@,
            ) && !is_protected_rel(deploy_plan_spec(patterns, cands)[i]@),
{
    broadcast use group_seq_properties;
    broadcast use vstd::seq_lib::group_filter_ensures;

    let pred = |p: String| deploy_copies(patterns, p@);
    assert(cands.filter(pred).len() <= cands.len());
}

/// One pull candidate, as the walk found it: its path relative to the
/// pull source root, whether the repository already holds the file,
/// and — when it does — whether both copies decode as text.
pub struct PullCandidate {
    pub rel: String,
    pub dest_exists: bool,
    pub both_text: bool,
}

/// How a pull candidate is previewed before its gate: a line diff when
/// both copies exist as text, a bare "modified" marker when they exist
/// but do not decode, an "addition" marker when the repository has no
/// copy yet.
#[derive(Debug, Clone, Copy, PartialEq, Eq, Structural)]
pub enum RenderKind {
    LineDiff,
    Modified,
    Addition,
}

/// One gated copy of a pull plan.
pub struct PullItem {
    pub rel: String,
    pub kind: RenderKind,
}

/// The preview a candidate gets.
pub open spec fn classify_spec(c: PullCandidate) -> RenderKind {
    if c.dest_exists && c.both_text {
        RenderKind::LineDiff
    } else if c.dest_exists {
        RenderKind::Modified
    } else {
        RenderKind::Addition
    }
}

/// A candidate the pull acts on: not excluded (the protected path is
/// handled before this).
pub open spec fn pull_keeps(patterns: Seq<Seq<char>>, c: PullCandidate) -> bool {
    !matches_any(patterns, c.rel@)
}

/// A candidate that aborts the pull: its relative path is the
/// protected path and no exclude pattern saves it.
pub open spec fn pull_collides(patterns: Seq<Seq<char>>, c: PullCandidate) -> bool {
    !matches_any(patterns, c.rel@) && is_protected_rel(c.rel@)
}

/// The items of a pull over these candidates, in order.
pub open spec fn pull_items_spec(patterns: Seq<Seq<char>>, cands: Seq<PullCandidate>) -> Seq<
    PullItem,
> {
    cands.filter(|c: PullCandidate| pull_keeps(patterns, c)).map_values(
        |c: PullCandidate| PullItem { rel: c.rel, kind: classify_spec(c) },
    )
}

/// `i` is the first candidate that collides with the protected path.
pub open spec fn first_collision(patterns: Seq<Seq<char>>, cands: Seq<PullCandidate>, i: int) -> bool {
    0 <= i < cands.len() && pull_collides(patterns, cands[i]) && forall|j: int|
        0 <= j < i ==> !pull_collides(patterns, #[trigger] cands[j])
}

/// A pull plan: the gated copies in candidate order and, when a
/// candidate collided with the protected path, the index it collided
/// at. On a collision the plan stops there: it holds items only for
/// candidates that come before the collision.
pub struct PullPlan {
    pub items: Vec<PullItem>,
    pub collision: Option<usize>,
}

/// Decides a whole pull. Candidates are taken in walk order: an
/// excluded one is skipped; a non-excluded one whose relative path is
/// the protected path aborts the pull at once, so that no later
/// candidate is acted on; every other candidate becomes a gated copy,
/// previewed as [`classify_spec`] says.
pub fn plan_pull(cands: &Vec<PullCandidate>, excludes: &ExcludeMatcher) -> (r: PullPlan)
    ensures
        match r.collision {
            Some(i) => first_collision(excludes.patterns(), cands@, i as int) && r.items@
                == pull_items_spec(excludes.patterns(), cands@.take(i as int)),
            None => (forall|j: int|
                0 <= j < cands@.len() ==> !pull_collides(
                    excludes.patterns(),
                    #[trigger] cands@[j],
                )) && r.items@ == pull_items_spec(excludes.patterns(), cands@),
        },
{
    let ghost patterns = excludes.patterns();
    let ghost keep = |c: PullCandidate| pull_keeps(patterns, c);
    let ghost to_item = |c: PullCandidate| PullItem { rel: c.rel, kind: classify_spec(c) };
    let mut items: Vec<PullItem> = Vec::new();
    let mut i: usize = 0;
    while i < cands.len()
        invariant
            i <= cands@.len(),
            items@ == cands@.take(i as int).filter(keep).map_values(to_item),
            forall|j: int| 0 <= j < i ==> !pull_collides(patterns, #[trigger] cands@[j]),
            patterns == excludes.patterns(),
            keep == (|c: PullCandidate| pull_keeps(patterns, c)),
            to_item == (|c: PullCandidate| PullItem { rel: c.rel, kind: classify_spec(c) }),
        decreases cands@.len() - i,
    {
        let cand = &cands[i];
        let excluded = excludes.is_match(cand.rel.as_str());
        proof {
            assert(cands@.take(i + 1) =~= cands@.take(i as int).push(cands@[i as int]));
            lemma_filter_push(cands@.take(i as int), keep, cands@[i as int]);
        }
        if !excluded {
            if is_protected(cand.rel.as_str()) {
                return PullPlan { items, collision: Some(i) };
            }
            let kind = if cand.dest_exists && cand.both_text {
                RenderKind::LineDiff
            } else if cand.dest_exists {
                RenderKind::Modified
            } else {
                RenderKind::Addition
            };
            items.push(PullItem { rel: cand.rel.clone(), kind });
            proof {
                assert(items@ =~= cands@.take(i + 1).filter(keep).map_values(to_item));
            }
        } else {
            proof {
                assert(items@ =~= cands@.take(i + 1).filter(keep).map_values(to_item));
            }
        }
        i += 1;
    }
    proof {
        assert(cands@.take(i as int) =~= cands@);
    }
    PullPlan { items, collision: None }
}

/// Law: a path matching any exclude pattern is never copied by pull.
pub proof fn lemma_pull_never_copies_excluded(
    patterns: Seq<Seq<char>>,
    cands: Seq<PullCandidate>,
)
    ensures
        forall|i: int|
            0 <= i < pull_items_spec(patterns, cands).len() ==> !matches_any(
                patterns,
                (#[trigger] pull_items_spec(patterns, cands)[i]).rel@,
            ),
{
    broadcast use group_seq_properties;

    broadcast use vstd::seq_lib::group_filter_ensures;

    let keep = |c: PullCandidate| pull_keeps(patterns, c);
    let kept = cands.filter(keep);
    assert forall|i: int| 0 <= i < pull_items_spec(patterns, cands).len() implies !matches_any(
        patterns,
        (#[trigger] pull_items_spec(patterns, cands)[i]).rel@,
    ) by {
        assert(pull_items_spec(patterns, cands)[i] == PullItem {
            rel: kept[i].rel,
            kind: classify_spec(kept[i]),
        });
        assert(keep(kept[i]));
    }
}

/// The items whose gate was answered yes, in order.
pub open spec fn select_spec(items: Seq<PullItem>, answers: Seq<bool>) -> Seq<PullItem>
    decreases items.len(),
{
    if items.len() == 0 || answers.len() == 0 {
        Seq::empty()
    } else {
        (if answers[0] {
            seq![items[0]]
        } else {
            Seq::empty()
        }) + select_spec(items.drop_first(), answers.drop_first())
    }
}

/// Applies the confirmation answers to a pull plan's items: an item is
/// copied exactly when its own gate was answered yes; declining one
/// leaves every other item's decision untouched.
pub fn select_confirmed(items: &Vec<PullItem>, answers: &Vec<bool>) -> (r: Vec<PullItem>)
    requires
        items@.len() == answers@.len(),
    ensures
        r@ == select_spec(items@, answers@),
{
    let mut out: Vec<PullItem> = Vec::new();
    let mut i: usize = 0;
    proof {
        assert(items@.skip(0) =~= items@);
        assert(answers@.skip(0) =~= answers@);
        assert(Seq::<PullItem>::empty() + select_spec(items@, answers@) =~= select_spec(
            items@,
            answers@,
        ));
    }
    while i < items.len()
        invariant
            items@.len() == answers@.len(),
            i <= items@.len(),
            select_spec(items@, answers@) == out@ + select_spec(
                items@.skip(i as int),
                answers@.skip(i as int),
            ),
        decreases items@.len() - i,
    {
        proof {
            lemma_select_step(items@, answers@, i as int);
        }
        if answers[i] {
            out.push(PullItem { rel: items[i].rel.clone(), kind: items[i].kind });
            proof {
                assert(items@[i as int] == (PullItem {
                    rel: items@[i as int].rel,
                    kind: items@[i as int].kind,
                }));
            }
        }
        i += 1;
    }
    proof {
        assert(select_spec(items@.skip(items@.len() as int), answers@.skip(items@.len() as int))
            =~= Seq::<PullItem>::empty());
        assert(out@ =~= select_spec(items@, answers@));
    }
    out
}

proof fn lemma_select_step(items: Seq<PullItem>, answers: Seq<bool>, i: int)
    requires
        items.len() == answers.len(),
        0 <= i < items.len(),
    ensures
        select_spec(items.skip(i), answers.skip(i)) == (if answers[i] {
            seq![items[i]]
        } else {
            Seq::<PullItem>::empty()
        }) + select_spec(items.skip(i + 1), answers.skip(i + 1)),
{
    assert(items.skip(i).len() == items.len() - i);
    assert(items.skip(i)[0] == items[i]);
    assert(answers.skip(i)[0] == answers[i]);
    assert(items.skip(i).drop_first() =~= items.skip(i + 1));
    assert(answers.skip(i).drop_first() =~= answers.skip(i + 1));
}

/// Law: the gates are independent. The selection splits at any index
/// into what the earlier answers select, that index's own contribution
/// — its item exactly when its answer is yes — and what the later
/// answers select; so declining one candidate removes only that
/// candidate's copy.
pub proof fn lemma_gate_independent(items: Seq<PullItem>, answers: Seq<bool>, j: int)
    requires
        items.len() == answers.len(),
        0 <= j < items.len(),
    ensures
        select_spec(items, answers) == select_spec(items.take(j), answers.take(j)) + (if answers[j] {
            seq![items[j]]
        } else {
            Seq::<PullItem>::empty()
        }) + select_spec(items.skip(j + 1), answers.skip(j + 1)),
    decreases j,
{
    if j == 0 {
        assert(items.take(0) =~= Seq::<PullItem>::empty());
        assert(answers.take(0) =~= Seq::<bool>::empty());
        lemma_select_step(items, answers, 0);
        assert(items.skip(0) =~= items);
        assert(answers.skip(0) =~= answers);
        assert(select_spec(items.take(0), answers.take(0)) =~= Seq::<PullItem>::empty());
        assert(select_spec(items, answers) == select_spec(items.take(0), answers.take(0)) + (
        if answers[0] {
            seq![items[0]]
        } else {
            Seq::<PullItem>::empty()
        }) + select_spec(items.skip(1), answers.skip(1)));
    } else {
        let items_rest = items.drop_first();
        let answers_rest = answers.drop_first();
        lemma_gate_independent(items_rest, answers_rest, j - 1);
        assert(items_rest.take(j - 1) =~= items.take(j).drop_first());
        assert(answers_rest.take(j - 1) =~= answers.take(j).drop_first());
        assert(items_rest.skip(j) =~= items.skip(j + 1));
        assert(answers_rest.skip(j) =~= answers.skip(j + 1));
        assert(items_rest[j - 1] == items[j]);
        assert(answers_rest[j - 1] == answers[j]);
        assert(select_spec(items, answers) == (if answers[0] {
            seq![items[0]]
        } else {
            Seq::<PullItem>::empty()
        }) + select_spec(items_rest, answers_rest));
        assert(items.take(j)[0] == items[0]);
        assert(answers.take(j)[0] == answers[0]);
        assert(items.take(j).len() == j);
        assert(select_spec(items.take(j), answers.take(j)) == (if answers[0] {
            seq![items[0]]
        } else {
            Seq::<PullItem>::empty()
        }) + select_spec(items.take(j).drop_first(), answers.take(j).drop_first()));
        assert(select_spec(items, answers) =~= select_spec(items.take(j), answers.take(j)) + (
        if answers[j] {
            seq![items[j]]
        } else {
            Seq::<PullItem>::empty()
        }) + select_spec(items.skip(j + 1), answers.skip(j + 1)));
    }
}

} // verus!
