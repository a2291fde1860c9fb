//! Next-project selection: a prioritized filter cascade over the active
//! projects, followed by a randomized epsilon-greedy choice.
//!
//! The cascade keeps, in order: active projects; prioritized ones, when
//! any project is prioritized; projects no judge is currently walking to;
//! and under-seen projects, when any remain.  The choice then either
//! explores (the first candidate after a uniform shuffle) or exploits (the
//! candidate with the greatest expected information gain).  The gains are
//! computed by the numeric engine outside the verified core and handed in
//! as order-preserving 64-bit keys.

use vstd::prelude::*;
use crate::models::{Judge, JudgeView, Project, ProjectView};
use crate::MIN_VIEWS;

verus! {

/// A draw below this cutoff (probability 1/4, the exploration rate)
/// selects the first shuffled candidate instead of the best-gain one.
pub const EXPLORE_CUTOFF: u32 = 0x4000_0000;

/// Some active judge is walking to the project with this id.
pub open spec fn spec_judges_make_busy(js: Seq<JudgeView>, id: u64) -> bool {
    exists|j: int| 0 <= j < js.len() && (#[trigger] js[j]).active && js[j].next == Some(id)
}

/// A project is busy when it has an id and some active judge has it as
/// `next`; projects without an id are never busy.
pub open spec fn spec_is_busy(js: Seq<JudgeView>, pid: Option<u64>) -> bool {
    match pid {
        Some(id) => spec_judges_make_busy(js, id),
        None => false,
    }
}

/// The projects of `s` that are active, in order.
pub open spec fn keep_active(s: Seq<ProjectView>) -> Seq<ProjectView>
    decreases s.len(),
{
    if s.len() == 0 {
        Seq::empty()
    } else {
        let rest = keep_active(s.drop_last());
        if s.last().active {
            rest.push(s.last())
        } else {
            rest
        }
    }
}

/// The projects of `s` that are prioritized, in order.
pub open spec fn keep_prioritized(s: Seq<ProjectView>) -> Seq<ProjectView>
    decreases s.len(),
{
    if s.len() == 0 {
        Seq::empty()
    } else {
        let rest = keep_prioritized(s.drop_last());
        if s.last().prioritized {
            rest.push(s.last())
        } else {
            rest
        }
    }
}

/// The projects of `s` that no active judge is walking to, in order.
pub open spec fn keep_not_busy(s: Seq<ProjectView>, js: Seq<JudgeView>) -> Seq<ProjectView>
    decreases s.len(),
{
    if s.len() == 0 {
        Seq::empty()
    } else {
        let rest = keep_not_busy(s.drop_last(), js);
        if !spec_is_busy(js, s.last().id) {
            rest.push(s.last())
        } else {
            rest
        }
    }
}

/// The projects of `s` seen fewer than `MIN_VIEWS` times, in order.
pub open spec fn keep_underseen(s: Seq<ProjectView>) -> Seq<ProjectView>
    decreases s.len(),
{
    if s.len() == 0 {
        Seq::empty()
    } else {
        let rest = keep_underseen(s.drop_last());
        if s.last().seen < MIN_VIEWS {
            rest.push(s.last())
        } else {
            rest
        }
    }
}

/// Some project in `s` is prioritized.
pub open spec fn spec_any_prioritized(s: Seq<ProjectView>) -> bool {
    exists|i: int| 0 <= i < s.len() && (#[trigger] s[i]).prioritized
}

/// Some project in `s` is under-seen.
pub open spec fn spec_any_underseen(s: Seq<ProjectView>) -> bool {
    exists|i: int| 0 <= i < s.len() && (#[trigger] s[i]).seen < MIN_VIEWS
}

/// The whole cascade: active, then prioritized when any, then not busy,
/// then under-seen when any.
pub open spec fn spec_preferred_items(ps: Seq<ProjectView>, js: Seq<JudgeView>) -> Seq<
    ProjectView,
> {
    let active = keep_active(ps);
    let staged = if spec_any_prioritized(active) {
        keep_prioritized(active)
    } else {
        active
    };
    let free = keep_not_busy(staged, js);
    if spec_any_underseen(free) {
        keep_underseen(free)
    } else {
        free
    }
}

/// The distinct targets of active judges: a project is in the result
/// exactly when some active judge has it as `next`.
pub fn find_all_busy_projects(judges: &Vec<Judge>) -> (busy: Vec<u64>)
    ensures
        forall|id: u64|
            #[trigger] busy@.contains(id) <==> spec_judges_make_busy(judges.deep_view(), id),
{
    let ghost js = judges.deep_view();
    let n = judges.len();
    let mut busy: Vec<u64> = Vec::new();
    let mut i: usize = 0;
    while i < n
        invariant
            n == judges@.len(),
            js == judges.deep_view(),
            0 <= i <= n,
            forall|id: u64|
                #[trigger] busy@.contains(id) <==> exists|j: int|
                    0 <= j < i && (#[trigger] js[j]).active && js[j].next == Some(id),
        decreases n - i,
    {
        let ghost prev = busy@;
        let mut pushed: Option<u64> = None;
        if judges[i].active {
            match judges[i].next {
                Some(id) => {
                    busy.push(id);
                    pushed = Some(id);
                },
                None => {},
            }
        }
        proof {
            assert forall|id: u64|
                #[trigger] busy@.contains(id) <==> exists|j: int|
                    0 <= j < i + 1 && (#[trigger] js[j]).active && js[j].next == Some(id) by {
                match pushed {
                    Some(x) => {
                        vstd::seq_lib::lemma_seq_contains_after_push(prev, x, id);
                        assert(js[i as int].active && js[i as int].next == Some(x));
                        if busy@.contains(id) {
                            if prev.contains(id) {
                                let j = choose|j: int|
                                    0 <= j < i && (#[trigger] js[j]).active && js[j].next == Some(
                                        id,
                                    );
                                assert(js[j].active && js[j].next == Some(id));
                            } else {
                                assert(id == x);
                            }
                        }
                        if exists|j: int|
                            0 <= j < i + 1 && (#[trigger] js[j]).active && js[j].next == Some(id) {
                            let j = choose|j: int|
                                0 <= j < i + 1 && (#[trigger] js[j]).active && js[j].next == Some(
                                    id,
                                );
                            if j < i {
                                assert(prev.contains(id));
                            } else {
                                assert(id == x);
                            }
                            assert(busy@.contains(id));
                        }
                    },
                    None => {
                        assert(busy@ == prev);
                        if exists|j: int|
                            0 <= j < i + 1 && (#[trigger] js[j]).active && js[j].next == Some(id) {
                            let j = choose|j: int|
                                0 <= j < i + 1 && (#[trigger] js[j]).active && js[j].next == Some(
                                    id,
                                );
                            assert(j < i);
                        }
                    },
                }
            }
        }
        i = i + 1;
    }
    busy
}

/// The busy set spares nobody: an active judge's own `next` is busy while
/// it is still recorded, the requesting judge's included.
pub proof fn lemma_busy_includes_own_next(js: Seq<JudgeView>, k: int)
    requires
        0 <= k < js.len(),
        js[k].active,
        js[k].next is Some,
    ensures
        spec_is_busy(js, js[k].next),
{
    assert(js[k].active && js[k].next == Some(js[k].next->0));
}

/// Linear membership test.
fn contains_u64(v: &Vec<u64>, x: u64) -> (r: bool)
    ensures
        r == v@.contains(x),
{
    let n = v.len();
    let mut i: usize = 0;
    while i < n
        invariant
            n == v@.len(),
            0 <= i <= n,
            forall|j: int| 0 <= j < i ==> v@[j] != x,
        decreases n - i,
    {
        if v[i] == x {
            return true;
        }
        i = i + 1;
    }
    false
}

/// Does any project of `v` satisfy `prioritized`?
fn any_prioritized(v: &Vec<Project>) -> (r: bool)
    ensures
        r == spec_any_prioritized(v.deep_view()),
{
    let n = v.len();
    let mut i: usize = 0;
    while i < n
        invariant
            n == v@.len(),
            0 <= i <= n,
            forall|j: int| 0 <= j < i ==> !(#[trigger] v.deep_view()[j]).prioritized,
        decreases n - i,
    {
        if v[i].prioritized {
            proof {
                assert((v.deep_view()[i as int]).prioritized);
            }
            return true;
        }
        i = i + 1;
    }
    false
}

/// Does any project of `v` remain under-seen?
fn any_underseen(v: &Vec<Project>) -> (r: bool)
    ensures
        r == spec_any_underseen(v.deep_view()),
{
    let n = v.len();
    let mut i: usize = 0;
    while i < n
        invariant
            n == v@.len(),
            0 <= i <= n,
            forall|j: int| 0 <= j < i ==> (#[trigger] v.deep_view()[j]).seen >= MIN_VIEWS,
        decreases n - i,
    {
        if v[i].seen < MIN_VIEWS {
            proof {
                assert((v.deep_view()[i as int]).seen < MIN_VIEWS);
            }
            return true;
        }
        i = i + 1;
    }
    false
}

/// Copies the active projects, in order.
pub(crate) fn filter_active(v: &Vec<Project>) -> (r: Vec<Project>)
    ensures
        r.deep_view() == keep_active(v.deep_view()),
{
    let ghost s = v.deep_view();
    let n = v.len();
    let mut r: Vec<Project> = Vec::new();
    let mut i: usize = 0;
    while i < n
        invariant
            n == v@.len(),
            s == v.deep_view(),
            0 <= i <= n,
            r.deep_view() == keep_active(s.take(i as int)),
        decreases n - i,
    {
        proof {
            assert(s.take(i + 1).drop_last() =~= s.take(i as int));
            assert(s.take(i + 1).last() == s[i as int]);
        }
        if v[i].active {
            let ghost prev = r.deep_view();
            let c = v[i].clone();
            r.push(c);
            proof {
                assert(r.deep_view() =~= prev.push(s[i as int]));
            }
        }
        i = i + 1;
    }
    proof {
        assert(s.take(n as int) =~= s);
    }
    r
}

/// Copies the prioritized projects, in order.
fn filter_prioritized(v: &Vec<Project>) -> (r: Vec<Project>)
    ensures
        r.deep_view() == keep_prioritized(v.deep_view()),
{
    let ghost s = v.deep_view();
    let n = v.len();
    let mut r: Vec<Project> = Vec::new();
    let mut i: usize = 0;
    while i < n
        invariant
            n == v@.len(),
            s == v.deep_view(),
            0 <= i <= n,
            r.deep_view() == keep_prioritized(s.take(i as int)),
        decreases n - i,
    {
        proof {
            assert(s.take(i + 1).drop_last() =~= s.take(i as int));
            assert(s.take(i + 1).last() == s[i as int]);
        }
        if v[i].prioritized {
            let ghost prev = r.deep_view();
            let c = v[i].clone();
            r.push(c);
            proof {
                assert(r.deep_view() =~= prev.push(s[i as int]));
            }
        }
        i = i + 1;
    }
    proof {
        assert(s.take(n as int) =~= s);
    }
    r
}

/// Copies the projects no active judge is walking to, in order.
fn filter_not_busy(v: &Vec<Project>, judges: &Vec<Judge>) -> (r: Vec<Project>)
    ensures
        r.deep_view() == keep_not_busy(v.deep_view(), judges.deep_view()),
{
    let busy = find_all_busy_projects(judges);
    let ghost s = v.deep_view();
    let ghost js = judges.deep_view();
    let n = v.len();
    let mut r: Vec<Project> = Vec::new();
    let mut i: usize = 0;
    while i < n
        invariant
            n == v@.len(),
            s == v.deep_view(),
            js == judges.deep_view(),
            forall|id: u64| #[trigger] busy@.contains(id) <==> spec_judges_make_busy(js, id),
            0 <= i <= n,
            r.deep_view() == keep_not_busy(s.take(i as int), js),
        decreases n - i,
    {
        proof {
            assert(s.take(i + 1).drop_last() =~= s.take(i as int));
            assert(s.take(i + 1).last() == s[i as int]);
        }
        let is_busy = match v[i].id {
            Some(id) => contains_u64(&busy, id),
            None => false,
        };
        proof {
            assert(is_busy == spec_is_busy(js, s[i as int].id));
        }
        if !is_busy {
            let ghost prev = r.deep_view();
            let c = v[i].clone();
            r.push(c);
            proof {
                assert(r.deep_view() =~= prev.push(s[i as int]));
            }
        }
        i = i + 1;
    }
    proof {
        assert(s.take(n as int) =~= s);
    }
    r
}

/// Copies the under-seen projects, in order.
fn filter_underseen(v: &Vec<Project>) -> (r: Vec<Project>)
    ensures
        r.deep_view() == keep_underseen(v.deep_view()),
{
    let ghost s = v.deep_view();
    let n = v.len();
    let mut r: Vec<Project> = Vec::new();
    let mut i: usize = 0;
    while i < n
        invariant
            n == v@.len(),
            s == v.deep_view(),
            0 <= i <= n,
            r.deep_view() == keep_underseen(s.take(i as int)),
        decreases n - i,
    {
        proof {
            assert(s.take(i + 1).drop_last() =~= s.take(i as int));
            assert(s.take(i + 1).last() == s[i as int]);
        }
        if v[i].seen < MIN_VIEWS {
            let ghost prev = r.deep_view();
            let c = v[i].clone();
            r.push(c);
            proof {
                assert(r.deep_view() =~= prev.push(s[i as int]));
            }
        }
        i = i + 1;
    }
    proof {
        assert(s.take(n as int) =~= s);
    }
    r
}

/// The filter cascade: the candidate list a judge may be sent to next.
pub fn find_preferred_items(projects: Vec<Project>, judges: &Vec<Judge>) -> (items: Vec<Project>)
    ensures
        items.deep_view() == spec_preferred_items(projects.deep_view(), judges.deep_view()),
{
    let active = filter_active(&projects);
    let staged = if any_prioritized(&active) {
        filter_prioritized(&active)
    } else {
        active
    };
    let free = filter_not_busy(&staged, judges);
    if any_underseen(&free) {
        filter_underseen(&free)
    } else {
        free
    }
}

/// Permutes the candidates uniformly at random.
///
/// Relies on `rand::seq::SliceRandom::shuffle`: a Fisher-Yates shuffle,
/// so the result is a permutation of the input.
#[verifier::external_body]
fn shuffle_projects(items: &mut Vec<Project>)
    ensures
        final(items)@.len() == old(items)@.len(),
        final(items)@.to_multiset() == old(items)@.to_multiset(),
        final(items).deep_view().to_multiset() == old(items).deep_view().to_multiset(),
{
    rand::seq::SliceRandom::shuffle(items.as_mut_slice(), &mut rand::thread_rng())
}

/// Draws a random machine word.
///
/// Relies on `rand::Rng::gen::<u32>`: a fresh uniform draw; nothing is
/// promised of its value.
#[verifier::external_body]
fn random_u32() -> u32 {
    <rand::rngs::ThreadRng as rand::Rng>::gen::<u32>(&mut rand::thread_rng())
}

/// Shuffles the candidates and draws the exploration coin: with
/// probability 1/4 the caller takes the first shuffled candidate instead
/// of the best-gain one.
pub fn shuffle_and_explore(items: &mut Vec<Project>) -> (explore: bool)
    ensures
        final(items)@.len() == old(items)@.len(),
        final(items)@.to_multiset() == old(items)@.to_multiset(),
        final(items).deep_view().to_multiset() == old(items).deep_view().to_multiset(),
{
    shuffle_projects(items);
    random_u32() < EXPLORE_CUTOFF
}

/// Index of the greatest gain, the last one on ties.
pub open spec fn spec_last_argmax(gains: Seq<u64>) -> int
    decreases gains.len(),
{
    if gains.len() <= 1 {
        0
    } else {
        let rest = spec_last_argmax(gains.drop_last());
        if gains.last() >= gains[rest] {
            gains.len() - 1
        } else {
            rest
        }
    }
}

proof fn lemma_last_argmax_in_range(gains: Seq<u64>)
    requires
        gains.len() > 0,
    ensures
        0 <= spec_last_argmax(gains) < gains.len(),
    decreases gains.len(),
{
    if gains.len() > 1 {
        lemma_last_argmax_in_range(gains.drop_last());
    }
}

/// The candidate with the greatest expected information gain; ties break
/// towards the last candidate in shuffle order.  `gains[i]` is the
/// order-preserving key of the gain of showing `list[i]` next.
pub fn max_info_gain(list: Vec<Project>, gains: &Vec<u64>) -> (p: Project)
    requires
        list@.len() > 0,
        gains@.len() == list@.len(),
    ensures
        p@ == list.deep_view()[spec_last_argmax(gains@)],
        forall|i: int|
            0 <= i < gains@.len() ==> gains@[spec_last_argmax(gains@)] >= #[trigger] gains@[i],
{
    proof {
        lemma_last_argmax_in_range(gains@);
        lemma_last_argmax_is_max(gains@);
    }
    let n = list.len();
    let mut best: usize = 0;
    let mut i: usize = 1;
    while i < n
        invariant
            n == gains@.len(),
            1 <= i <= n,
            0 <= best < i,
            best == spec_last_argmax(gains@.take(i as int)),
        decreases n - i,
    {
        proof {
            assert(gains@.take(i + 1).drop_last() =~= gains@.take(i as int));
            assert(gains@.take(i + 1).last() == gains@[i as int]);
            lemma_last_argmax_in_range(gains@.take(i as int));
        }
        if gains[i] >= gains[best] {
            best = i;
        }
        i = i + 1;
    }
    proof {
        assert(gains@.take(n as int) =~= gains@);
    }
    list[best].clone()
}

proof fn lemma_last_argmax_is_max(gains: Seq<u64>)
    requires
        gains.len() > 0,
    ensures
        forall|i: int| 0 <= i < gains.len() ==> gains[spec_last_argmax(gains)] >= #[trigger] gains[i],
    decreases gains.len(),
{
    if gains.len() > 1 {
        lemma_last_argmax_is_max(gains.drop_last());
        lemma_last_argmax_in_range(gains.drop_last());
        assert forall|i: int| 0 <= i < gains.len() implies gains[spec_last_argmax(gains)]
            >= #[trigger] gains[i] by {
            if i < gains.len() - 1 {
                assert(gains.drop_last()[i] == gains[i]);
                assert(gains.drop_last()[spec_last_argmax(gains.drop_last())] == gains[
                    spec_last_argmax(gains.drop_last())
                ]);
            }
        }
    }
}

/// The epsilon-greedy choice among the shuffled candidates: none when the
/// cascade left nothing; the first candidate when exploring; otherwise the
/// one with the greatest gain key.
pub fn pick_next_project(items: Vec<Project>, gains: &Vec<u64>, explore: bool) -> (r: Option<
    Project,
>)
    requires
        gains@.len() == items@.len(),
    ensures
        r is None <==> items@.len() == 0,
        items@.len() > 0 && explore ==> (r matches Some(p) && p@ == items.deep_view()[0]),
        items@.len() > 0 && !explore ==> (r matches Some(p) && p@ == items.deep_view()[
            spec_last_argmax(gains@)
        ]),
{
    if items.len() == 0 {
        return None;
    }
    if explore {
        Some(items[0].clone())
    } else {
        Some(max_info_gain(items, gains))
    }
}

proof fn lemma_keep_active_contains(s: Seq<ProjectView>)
    ensures
        forall|q: ProjectView|
            #[trigger] keep_active(s).contains(q) <==> s.contains(q) && q.active,
    decreases s.len(),
{
    if s.len() > 0 {
        lemma_keep_active_contains(s.drop_last());
        assert forall|q: ProjectView|
            #[trigger] keep_active(s).contains(q) <==> s.contains(q) && q.active by {
            vstd::seq_lib::lemma_seq_contains_after_push(s.drop_last(), s.last(), q);
            assert(s.drop_last().push(s.last()) =~= s);
            vstd::seq_lib::lemma_seq_contains_after_push(
                keep_active(s.drop_last()),
                s.last(),
                q,
            );
        }
    }
}

proof fn lemma_keep_prioritized_contains(s: Seq<ProjectView>)
    ensures
        forall|q: ProjectView|
            #[trigger] keep_prioritized(s).contains(q) <==> s.contains(q) && q.prioritized,
    decreases s.len(),
{
    if s.len() > 0 {
        lemma_keep_prioritized_contains(s.drop_last());
        assert forall|q: ProjectView|
            #[trigger] keep_prioritized(s).contains(q) <==> s.contains(q) && q.prioritized by {
            vstd::seq_lib::lemma_seq_contains_after_push(s.drop_last(), s.last(), q);
            assert(s.drop_last().push(s.last()) =~= s);
            vstd::seq_lib::lemma_seq_contains_after_push(
                keep_prioritized(s.drop_last()),
                s.last(),
                q,
            );
        }
    }
}

proof fn lemma_keep_not_busy_contains(s: Seq<ProjectView>, js: Seq<JudgeView>)
    ensures
        forall|q: ProjectView|
            #[trigger] keep_not_busy(s, js).contains(q) <==> s.contains(q) && !spec_is_busy(
                js,
                q.id,
            ),
    decreases s.len(),
{
    if s.len() > 0 {
        lemma_keep_not_busy_contains(s.drop_last(), js);
        assert forall|q: ProjectView|
            #[trigger] keep_not_busy(s, js).contains(q) <==> s.contains(q) && !spec_is_busy(
                js,
                q.id,
            ) by {
            vstd::seq_lib::lemma_seq_contains_after_push(s.drop_last(), s.last(), q);
            assert(s.drop_last().push(s.last()) =~= s);
            vstd::seq_lib::lemma_seq_contains_after_push(
                keep_not_busy(s.drop_last(), js),
                s.last(),
                q,
            );
        }
    }
}

proof fn lemma_keep_underseen_contains(s: Seq<ProjectView>)
    ensures
        forall|q: ProjectView|
            #[trigger] keep_underseen(s).contains(q) <==> s.contains(q) && q.seen < MIN_VIEWS,
    decreases s.len(),
{
    if s.len() > 0 {
        lemma_keep_underseen_contains(s.drop_last());
        assert forall|q: ProjectView|
            #[trigger] keep_underseen(s).contains(q) <==> s.contains(q) && q.seen < MIN_VIEWS by {
            vstd::seq_lib::lemma_seq_contains_after_push(s.drop_last(), s.last(), q);
            assert(s.drop_last().push(s.last()) =~= s);
            vstd::seq_lib::lemma_seq_contains_after_push(
                keep_underseen(s.drop_last()),
                s.last(),
                q,
            );
        }
    }
}

/// With no active project the cascade is empty, so selection returns
/// nothing.
pub proof fn lemma_selector_none_without_active(ps: Seq<ProjectView>, js: Seq<JudgeView>)
    requires
        forall|i: int| 0 <= i < ps.len() ==> !(#[trigger] ps[i]).active,
    ensures
        spec_preferred_items(ps, js).len() == 0,
{
    lemma_keep_active_contains(ps);
    let active = keep_active(ps);
    if active.len() > 0 {
        assert(active.contains(active[0]));
        assert(ps.contains(active[0]));
    }
    assert(active =~= Seq::<ProjectView>::empty());
    lemma_keep_prioritized_contains(active);
    lemma_keep_not_busy_contains(active, js);
    let free = keep_not_busy(active, js);
    if free.len() > 0 {
        assert(free.contains(free[0]));
    }
    assert(free =~= Seq::<ProjectView>::empty());
    lemma_keep_underseen_contains(free);
    let result = spec_preferred_items(ps, js);
    if result.len() > 0 {
        assert(result.contains(result[0]));
    }
}

/// When an active, prioritized, not-busy project exists, the cascade is
/// non-empty and every candidate it keeps is prioritized.
pub proof fn lemma_selector_prefers_prioritized(
    ps: Seq<ProjectView>,
    js: Seq<JudgeView>,
    p: ProjectView,
)
    requires
        ps.contains(p),
        p.active,
        p.prioritized,
        !spec_is_busy(js, p.id),
    ensures
        spec_preferred_items(ps, js).len() > 0,
        forall|q: ProjectView|
            #[trigger] spec_preferred_items(ps, js).contains(q) ==> q.prioritized,
{
    lemma_keep_active_contains(ps);
    let active = keep_active(ps);
    assert(active.contains(p));
    assert(spec_any_prioritized(active)) by {
        let w = choose|i: int| 0 <= i < active.len() && active[i] == p;
        assert(active[w].prioritized);
    }
    let staged = keep_prioritized(active);
    lemma_keep_prioritized_contains(active);
    assert(staged.contains(p));
    let free = keep_not_busy(staged, js);
    lemma_keep_not_busy_contains(staged, js);
    assert(free.contains(p));
    let result = spec_preferred_items(ps, js);
    lemma_keep_underseen_contains(free);
    if spec_any_underseen(free) {
        let w = choose|i: int| 0 <= i < free.len() && free[i].seen < MIN_VIEWS;
        assert(free.contains(free[w]));
        assert(result.contains(free[w]));
        assert(result.len() > 0);
    } else {
        assert(result.contains(p));
        assert(result.len() > 0);
    }
    assert forall|q: ProjectView| #[trigger] result.contains(q) implies q.prioritized by {
        if spec_any_underseen(free) {
            assert(free.contains(q));
        }
        assert(staged.contains(q));
    }
}

/// When no active project is prioritized and an active, not-busy,
/// under-seen project exists, the cascade is non-empty and every candidate
/// it keeps is under-seen.  (A prioritized project elsewhere on the floor
/// would preempt the under-seen ones, so that case is excluded.)
pub proof fn lemma_selector_prefers_underseen(
    ps: Seq<ProjectView>,
    js: Seq<JudgeView>,
    p: ProjectView,
)
    requires
        ps.contains(p),
        p.active,
        p.seen < MIN_VIEWS,
        !spec_is_busy(js, p.id),
        forall|q: ProjectView| ps.contains(q) && (#[trigger] q.active) ==> !q.prioritized,
    ensures
        spec_preferred_items(ps, js).len() > 0,
        forall|q: ProjectView|
            #[trigger] spec_preferred_items(ps, js).contains(q) ==> q.seen < MIN_VIEWS,
{
    lemma_keep_active_contains(ps);
    let active = keep_active(ps);
    assert(active.contains(p));
    assert(!spec_any_prioritized(active)) by {
        if spec_any_prioritized(active) {
            let w = choose|i: int| 0 <= i < active.len() && (#[trigger] active[i]).prioritized;
            assert(active.contains(active[w]));
            assert(ps.contains(active[w]) && active[w].active);
        }
    }
    let free = keep_not_busy(active, js);
    lemma_keep_not_busy_contains(active, js);
    assert(free.contains(p));
    assert(spec_any_underseen(free)) by {
        let w = choose|i: int| 0 <= i < free.len() && free[i] == p;
        assert(free[w].seen < MIN_VIEWS);
    }
    let result = spec_preferred_items(ps, js);
    lemma_keep_underseen_contains(free);
    assert(result.contains(p));
    assert(result.len() > 0);
}

} // verus!
