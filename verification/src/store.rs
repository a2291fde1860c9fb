//! The posterior store, modelled: the three collections as plain vectors,
//! with the query and update operations the coordinator relies on.
//!
//! The storage driver itself lives outside the verified core; it mirrors
//! these transitions document for document.  Identities are plain
//! integers handed out by the store.  Table locations are issued densely
//! from 1, in insertion order, by the options singleton.

use vstd::prelude::*;
use vstd::pervasive::VecAdditionalExecFns;
use vstd::string::StrSliceExecFns;
use crate::text::str_eq;
use crate::models::{Judge, JudgeView, Options, Project, ProjectView};
use crate::requests::{JudgeVoteProjectInfo, NewJudge, NewProject};
use crate::vote::spec_project_after_vote;

verus! {

/// A referenced document is absent.
#[derive(Clone, Copy, Debug, PartialEq, Eq, Structural)]
pub enum StoreError {
    NotFound,
}

/// The three collections and the id generator.
pub struct Store {
    pub projects: Vec<Project>,
    pub judges: Vec<Judge>,
    /// The options singleton; absent until first touched.
    pub options: Option<Options>,
    /// Next unused document id.
    pub next_id: u64,
}

/// The next table location the store would hand out.
pub open spec fn spec_next_table_num(s: Store) -> int {
    match s.options {
        Some(o) => o.next_table_num as int,
        None => 1,
    }
}

/// The options document a read returns: the stored one, or a fresh one
/// created on first touch.
pub open spec fn spec_get_options(s: Store) -> Options {
    match s.options {
        Some(o) => o,
        None => Options { id: None, next_table_num: 1 },
    }
}

/// What writing `o` back leaves in the store: only `next_table_num` is
/// replaced, and only when an options document exists to replace it in.
pub open spec fn spec_save_options(s: Store, o: Options) -> Option<Options> {
    match s.options {
        Some(st) => Some(Options { id: st.id, next_table_num: o.next_table_num }),
        None => None,
    }
}

/// Table locations form a contiguous prefix of the positive integers, in
/// insertion order, and the counter stands one past them.
pub open spec fn spec_locations_contiguous(ps: Seq<ProjectView>, next_table: int) -> bool {
    &&& next_table == ps.len() + 1
    &&& forall|i: int| 0 <= i < ps.len() ==> (#[trigger] ps[i]).location == i + 1
}

/// The store's locations are contiguous.
pub open spec fn spec_store_locations_contiguous(s: Store) -> bool {
    spec_locations_contiguous(s.projects.deep_view(), spec_next_table_num(s))
}

impl Store {
    /// An empty store.
    pub fn new() -> (s: Store)
        ensures
            s.projects@.len() == 0,
            s.judges@.len() == 0,
            s.options is None,
            s.next_id == 0u64,
            spec_store_locations_contiguous(s),
    {
        let s = Store { projects: Vec::new(), judges: Vec::new(), options: None, next_id: 0 };
        proof {
            assert(s.projects.deep_view() =~= Seq::<ProjectView>::empty());
        }
        s
    }

    /// Reads the options singleton, creating it on first touch.
    pub fn get_options(&mut self) -> (r: Options)
        ensures
            r == spec_get_options(*old(self)),
            final(self).options == Some(r),
            final(self).projects == old(self).projects,
            final(self).judges == old(self).judges,
            final(self).next_id == old(self).next_id,
    {
        match self.options {
            Some(o) => o,
            None => {
                let o = Options::new();
                self.options = Some(o);
                o
            },
        }
    }

    /// Writes an options value back; only `next_table_num` is stored, and
    /// a store that never had options is left without them.
    pub fn save_options(&mut self, o: &Options)
        ensures
            final(self).options == spec_save_options(*old(self), *o),
            final(self).projects == old(self).projects,
            final(self).judges == old(self).judges,
            final(self).next_id == old(self).next_id,
    {
        match self.options {
            Some(st) => {
                self.options = Some(Options { id: st.id, next_table_num: o.next_table_num });
            },
            None => {},
        }
    }

    /// The next unused table location, creating options on first touch.
    pub fn get_next_location(&mut self) -> (loc: u64)
        ensures
            loc == spec_next_table_num(*old(self)),
            final(self).options == Some(spec_get_options(*old(self))),
            final(self).projects == old(self).projects,
            final(self).judges == old(self).judges,
            final(self).next_id == old(self).next_id,
    {
        let o = self.get_options();
        o.next_table_num as u64
    }

    /// Advances the location counter by `amt` (one, when absent).
    pub fn increment_location(&mut self, amt: Option<u32>)
        requires
            spec_next_table_num(*old(self)) + (match amt {
                Some(a) => a as int,
                None => 1,
            }) <= u32::MAX,
        ensures
            final(self).options == Some(
                Options {
                    id: spec_get_options(*old(self)).id,
                    next_table_num: (spec_next_table_num(*old(self)) + (match amt {
                        Some(a) => a as int,
                        None => 1,
                    })) as u32,
                },
            ),
            final(self).projects == old(self).projects,
            final(self).judges == old(self).judges,
            final(self).next_id == old(self).next_id,
    {
        let o = self.get_options();
        let step: u32 = match amt {
            Some(a) => a,
            None => 1,
        };
        self.options = Some(Options { id: o.id, next_table_num: o.next_table_num + step });
    }
}

/// Reading the options and writing them back with `next_table_num`
/// unchanged leaves the stored document exactly as it was.
pub proof fn lemma_options_read_write_identity(s: Store)
    requires
        s.options is Some,
    ensures
        spec_save_options(s, spec_get_options(s)) == s.options,
{
}

/// Some project of `ps` sits at location `loc`.
pub open spec fn spec_location_used(ps: Seq<ProjectView>, loc: u64) -> bool {
    exists|i: int| 0 <= i < ps.len() && (#[trigger] ps[i]).location == loc
}

/// In a store with contiguous locations, the locations in use are exactly
/// `1 ..= len`, each exactly once.
pub proof fn lemma_contiguous_prefix(ps: Seq<ProjectView>, next_table: int)
    requires
        spec_locations_contiguous(ps, next_table),
    ensures
        forall|loc: u64| (1 <= loc <= ps.len()) <==> #[trigger] spec_location_used(ps, loc),
        forall|i: int, j: int|
            0 <= i < j < ps.len() ==> (#[trigger] ps[i]).location != (#[trigger] ps[j]).location,
{
    assert forall|loc: u64| (1 <= loc <= ps.len()) implies #[trigger] spec_location_used(
        ps,
        loc,
    ) by {
        assert(ps[loc - 1].location == loc);
    }
}


impl Store {
    /// Ingests a batch of projects: each gets the next table location in
    /// order and a fresh id, and the counter advances past the batch.
    pub fn insert_projects(&mut self, projects: Vec<Project>)
        requires
            spec_next_table_num(*old(self)) + projects@.len() <= u32::MAX,
            old(self).next_id + projects@.len() <= u64::MAX,
        ensures
            final(self).judges == old(self).judges,
            final(self).next_id == old(self).next_id + projects@.len(),
            spec_next_table_num(*final(self)) == spec_next_table_num(*old(self))
                + projects@.len(),
            final(self).options == Some(
                Options {
                    id: spec_get_options(*old(self)).id,
                    next_table_num: (spec_next_table_num(*old(self)) + projects@.len()) as u32,
                },
            ),
            final(self).projects.deep_view().len() == old(self).projects.deep_view().len()
                + projects@.len(),
            final(self).projects.deep_view().take(old(self).projects.deep_view().len() as int)
                == old(self).projects.deep_view(),
            forall|k: int|
                0 <= k < projects@.len() ==> final(self).projects.deep_view()[old(
                    self,
                ).projects.deep_view().len() + k] == (ProjectView {
                    id: Some((old(self).next_id + k) as u64),
                    location: (spec_next_table_num(*old(self)) + k) as u64,
                    ..#[trigger] projects.deep_view()[k]
                }),
            spec_store_locations_contiguous(*old(self)) ==> spec_store_locations_contiguous(
                *final(self),
            ),
    {
        let ghost orig = *self;
        let ghost input = projects.deep_view();
        let new_location = self.get_next_location();
        let n = projects.len();
        let mut i: usize = 0;
        while i < n
            invariant
                n == projects@.len(),
                input == projects.deep_view(),
                spec_next_table_num(orig) + n <= u32::MAX,
                orig.next_id + n <= u64::MAX,
                new_location == spec_next_table_num(orig),
                0 <= i <= n,
                self.judges == orig.judges,
                self.options == Some(spec_get_options(orig)),
                self.next_id == orig.next_id + i,
                self.projects.deep_view().len() == orig.projects.deep_view().len() + i,
                self.projects.deep_view().take(orig.projects.deep_view().len() as int)
                    == orig.projects.deep_view(),
                forall|k: int|
                    0 <= k < i ==> self.projects.deep_view()[orig.projects.deep_view().len() + k]
                        == (ProjectView {
                        id: Some((orig.next_id + k) as u64),
                        location: (spec_next_table_num(orig) + k) as u64,
                        ..#[trigger] input[k]
                    }),
            decreases n - i,
        {
            let ghost before = self.projects.deep_view();
            let mut p = projects[i].clone();
            p.location = new_location + i as u64;
            p.id = Some(self.next_id);
            self.next_id = self.next_id + 1;
            self.projects.push(p);
            proof {
                assert(self.projects.deep_view() =~= before.push(p@));
                assert(self.projects.deep_view().take(orig.projects.deep_view().len() as int)
                    =~= before.take(orig.projects.deep_view().len() as int));
                assert(p@ == (ProjectView {
                    id: Some((orig.next_id + i) as u64),
                    location: (spec_next_table_num(orig) + i) as u64,
                    ..input[i as int]
                }));
            }
            i = i + 1;
        }
        let amt = n as u32;
        self.increment_location(Some(amt));
        proof {
            if spec_store_locations_contiguous(orig) {
                let dv = self.projects.deep_view();
                let olen = orig.projects.deep_view().len() as int;
                assert forall|j: int| 0 <= j < dv.len() implies (#[trigger] dv[j]).location == j
                    + 1 by {
                    if j < olen {
                        assert(orig.projects.deep_view()[j].location == j + 1);
                        assert(dv.take(olen)[j] == dv[j]);
                    } else {
                        let k = j - olen;
                        assert(dv[olen + k] == (ProjectView {
                            id: Some((orig.next_id + k) as u64),
                            location: (spec_next_table_num(orig) + k) as u64,
                            ..input[k]
                        }));
                    }
                }
            }
        }
    }

    /// Ingests a single project: the next location, a fresh id, counter
    /// advanced by one.
    pub fn insert_project(&mut self, project: NewProject)
        requires
            spec_next_table_num(*old(self)) + 1 <= u32::MAX,
            old(self).next_id < u64::MAX,
        ensures
            final(self).judges == old(self).judges,
            final(self).next_id == old(self).next_id + 1,
            spec_next_table_num(*final(self)) == spec_next_table_num(*old(self)) + 1,
            final(self).projects.deep_view().len() == old(self).projects.deep_view().len() + 1,
            final(self).projects.deep_view().take(old(self).projects.deep_view().len() as int)
                == old(self).projects.deep_view(),
            final(self).projects.deep_view().last() == (ProjectView {
                id: Some(old(self).next_id),
                location: spec_next_table_num(*old(self)) as u64,
                name: project.name@,
                description: project.description@,
                try_link: project.try_link.deep_view(),
                video_link: project.video_link.deep_view(),
                challenge_list: project.challenge_list.deep_view(),
                seen: 0u64,
                votes: 0u64,
                mu: crate::models::MU_PRIOR_BITS,
                sigma_sq: crate::models::SIGMA_SQ_PRIOR_BITS,
                active: true,
                prioritized: false,
                last_activity: 0i64,
            }),
            spec_store_locations_contiguous(*old(self)) ==> spec_store_locations_contiguous(
                *final(self),
            ),
    {
        let ghost orig = *self;
        let new_location = self.get_next_location();
        let mut p = project.into_project();
        p.location = new_location;
        p.id = Some(self.next_id);
        self.next_id = self.next_id + 1;
        let ghost before = self.projects.deep_view();
        self.projects.push(p);
        self.increment_location(None);
        proof {
            assert(self.projects.deep_view() =~= before.push(p@));
            assert(self.projects.deep_view().take(orig.projects.deep_view().len() as int)
                =~= before.take(orig.projects.deep_view().len() as int));
            if spec_store_locations_contiguous(orig) {
                let dv = self.projects.deep_view();
                let olen = orig.projects.deep_view().len() as int;
                assert forall|j: int| 0 <= j < dv.len() implies (#[trigger] dv[j]).location == j
                    + 1 by {
                    if j < olen {
                        assert(orig.projects.deep_view()[j].location == j + 1);
                        assert(dv.take(olen)[j] == dv[j]);
                    }
                }
            }
        }
    }
}


/// Some project carries this id.
pub open spec fn spec_project_with_id(ps: Seq<ProjectView>, id: u64) -> bool {
    exists|i: int| 0 <= i < ps.len() && (#[trigger] ps[i]).id == Some(id)
}

/// Some judge carries this id.
pub open spec fn spec_judge_with_id(js: Seq<JudgeView>, id: u64) -> bool {
    exists|i: int| 0 <= i < js.len() && (#[trigger] js[i]).id == Some(id)
}

/// Copies a project list.
fn clone_projects(v: &Vec<Project>) -> (r: Vec<Project>)
    ensures
        r.deep_view() == v.deep_view(),
{
    let n = v.len();
    let mut r: Vec<Project> = Vec::new();
    let mut i: usize = 0;
    while i < n
        invariant
            n == v@.len(),
            0 <= i <= n,
            r.deep_view() == v.deep_view().take(i as int),
        decreases n - i,
    {
        let ghost prev = r.deep_view();
        let c = v[i].clone();
        r.push(c);
        proof {
            assert(r.deep_view() =~= prev.push(v.deep_view()[i as int]));
            assert(v.deep_view().take(i + 1) =~= v.deep_view().take(i as int).push(
                v.deep_view()[i as int],
            ));
        }
        i = i + 1;
    }
    proof {
        assert(v.deep_view().take(n as int) =~= v.deep_view());
    }
    r
}

/// Copies a judge list.
fn clone_judges(v: &Vec<Judge>) -> (r: Vec<Judge>)
    ensures
        r.deep_view() == v.deep_view(),
{
    let n = v.len();
    let mut r: Vec<Judge> = Vec::new();
    let mut i: usize = 0;
    while i < n
        invariant
            n == v@.len(),
            0 <= i <= n,
            r.deep_view() == v.deep_view().take(i as int),
        decreases n - i,
    {
        let ghost prev = r.deep_view();
        let c = v[i].clone();
        r.push(c);
        proof {
            assert(r.deep_view() =~= prev.push(v.deep_view()[i as int]));
            assert(v.deep_view().take(i + 1) =~= v.deep_view().take(i as int).push(
                v.deep_view()[i as int],
            ));
        }
        i = i + 1;
    }
    proof {
        assert(v.deep_view().take(n as int) =~= v.deep_view());
    }
    r
}

impl Store {
    /// A copy of every project.
    pub fn find_all_projects(&self) -> (r: Vec<Project>)
        ensures
            r.deep_view() == self.projects.deep_view(),
    {
        clone_projects(&self.projects)
    }

    /// A copy of every active project.
    pub fn find_all_active_projects(&self) -> (r: Vec<Project>)
        ensures
            r.deep_view() == crate::selector::keep_active(self.projects.deep_view()),
    {
        crate::selector::filter_active(&self.projects)
    }

    /// A copy of every judge.
    pub fn find_all_judges(&self) -> (r: Vec<Judge>)
        ensures
            r.deep_view() == self.judges.deep_view(),
    {
        clone_judges(&self.judges)
    }

    /// The first project with this id.
    pub fn find_project_by_id(&self, id: u64) -> (r: Result<Project, StoreError>)
        ensures
            r is Ok <==> spec_project_with_id(self.projects.deep_view(), id),
            r matches Ok(p) ==> exists|i: int|
                {
                    &&& 0 <= i < self.projects.deep_view().len()
                    &&& (#[trigger] self.projects.deep_view()[i]).id == Some(id)
                    &&& forall|j: int|
                        0 <= j < i ==> (#[trigger] self.projects.deep_view()[j]).id != Some(id)
                    &&& p@ == self.projects.deep_view()[i]
                },
    {
        let n = self.projects.len();
        let mut i: usize = 0;
        while i < n
            invariant
                n == self.projects@.len(),
                0 <= i <= n,
                forall|j: int|
                    0 <= j < i ==> (#[trigger] self.projects.deep_view()[j]).id != Some(id),
            decreases n - i,
        {
            let found = match self.projects[i].id {
                Some(pid) => pid == id,
                None => false,
            };
            if found {
                let p = self.projects[i].clone();
                proof {
                    assert(self.projects.deep_view()[i as int].id == Some(id));
                    assert(self.projects.deep_view().contains(p@));
                }
                return Ok(p);
            }
            i = i + 1;
        }
        Err(StoreError::NotFound)
    }

    /// Deletes the first project with this id; an error when none exists.
    pub fn delete_project_by_id(&mut self, id: u64) -> (r: Result<(), StoreError>)
        ensures
            final(self).judges == old(self).judges,
            final(self).options == old(self).options,
            final(self).next_id == old(self).next_id,
            r is Ok <==> spec_project_with_id(old(self).projects.deep_view(), id),
            r is Err ==> final(self).projects == old(self).projects,
            r is Ok ==> exists|i: int|
                {
                    &&& 0 <= i < old(self).projects.deep_view().len()
                    &&& old(self).projects.deep_view()[i].id == Some(id)
                    &&& forall|j: int|
                        0 <= j < i ==> (#[trigger] old(self).projects.deep_view()[j]).id != Some(
                            id,
                        )
                    &&& final(self).projects.deep_view() == #[trigger] old(
                        self,
                    ).projects.deep_view().remove(i)
                },
    {
        let ghost odv = self.projects.deep_view();
        let n = self.projects.len();
        let mut i: usize = 0;
        while i < n
            invariant
                odv == self.projects.deep_view(),
                n == self.projects@.len(),
                0 <= i <= n,
                self.projects == old(self).projects,
                self.judges == old(self).judges,
                self.options == old(self).options,
                self.next_id == old(self).next_id,
                forall|j: int| 0 <= j < i ==> (#[trigger] odv[j]).id != Some(id),
            decreases n - i,
        {
            let found = match self.projects[i].id {
                Some(pid) => pid == id,
                None => false,
            };
            if found {
                let ghost oldseq = self.projects@;
                self.projects.remove(i);
                proof {
                    oldseq.remove_ensures(i as int);
                    odv.remove_ensures(i as int);
                    assert(self.projects.deep_view() =~= odv.remove(i as int));
                    assert(odv[i as int].id == Some(id));
                }
                return Ok(());
            }
            i = i + 1;
        }
        Err(StoreError::NotFound)
    }

    /// Deletes the first judge with this id; an error when none exists.
    pub fn delete_judge_by_id(&mut self, id: u64) -> (r: Result<(), StoreError>)
        ensures
            final(self).projects == old(self).projects,
            final(self).options == old(self).options,
            final(self).next_id == old(self).next_id,
            r is Ok <==> spec_judge_with_id(old(self).judges.deep_view(), id),
            r is Err ==> final(self).judges == old(self).judges,
            r is Ok ==> exists|i: int|
                {
                    &&& 0 <= i < old(self).judges.deep_view().len()
                    &&& old(self).judges.deep_view()[i].id == Some(id)
                    &&& forall|j: int|
                        0 <= j < i ==> (#[trigger] old(self).judges.deep_view()[j]).id != Some(id)
                    &&& final(self).judges.deep_view() == #[trigger] old(
                        self,
                    ).judges.deep_view().remove(i)
                },
    {
        let ghost odv = self.judges.deep_view();
        let n = self.judges.len();
        let mut i: usize = 0;
        while i < n
            invariant
                odv == self.judges.deep_view(),
                n == self.judges@.len(),
                0 <= i <= n,
                self.projects == old(self).projects,
                self.judges == old(self).judges,
                self.options == old(self).options,
                self.next_id == old(self).next_id,
                forall|j: int| 0 <= j < i ==> (#[trigger] odv[j]).id != Some(id),
            decreases n - i,
        {
            let found = match self.judges[i].id {
                Some(jid) => jid == id,
                None => false,
            };
            if found {
                let ghost oldseq = self.judges@;
                self.judges.remove(i);
                proof {
                    oldseq.remove_ensures(i as int);
                    odv.remove_ensures(i as int);
                    assert(self.judges.deep_view() =~= odv.remove(i as int));
                    assert(odv[i as int].id == Some(id));
                }
                return Ok(());
            }
            i = i + 1;
        }
        Err(StoreError::NotFound)
    }
}


/// Some judge carries this login code.
pub open spec fn spec_judge_with_code(js: Seq<JudgeView>, code: Seq<char>) -> bool {
    exists|i: int| 0 <= i < js.len() && (#[trigger] js[i]).code == code
}

/// Some judge carries this session token.
pub open spec fn spec_judge_with_token(js: Seq<JudgeView>, token: Seq<char>) -> bool {
    exists|i: int| 0 <= i < js.len() && (#[trigger] js[i]).token == token
}

impl Store {
    /// Registers one judge: the submitted fields, a fresh code and id,
    /// prior reliability posterior.
    pub fn insert_judge(&mut self, judge: NewJudge)
        requires
            old(self).next_id < u64::MAX,
        ensures
            final(self).projects == old(self).projects,
            final(self).options == old(self).options,
            final(self).next_id == old(self).next_id + 1,
            final(self).judges.deep_view().len() == old(self).judges.deep_view().len() + 1,
            final(self).judges.deep_view().take(old(self).judges.deep_view().len() as int) == old(
                self,
            ).judges.deep_view(),
            ({
                let j = final(self).judges.deep_view().last();
                &&& j.id == Some(old(self).next_id)
                &&& j.token.len() == 0
                &&& j.code.len() == 6
                &&& j.name == judge.name@
                &&& j.email == judge.email@
                &&& j.active
                &&& !j.read_welcome
                &&& j.notes == (match judge.notes {
                    Some(n) => n@,
                    None => Seq::<char>::empty(),
                })
                &&& j.votes == 0u64
                &&& j.next == None::<u64>
                &&& j.prev == None::<u64>
                &&& j.alpha == crate::models::ALPHA_PRIOR_BITS
                &&& j.beta == crate::models::BETA_PRIOR_BITS
            }),
    {
        let ghost before = self.judges.deep_view();
        let mut j = judge.into_judge();
        j.id = Some(self.next_id);
        self.next_id = self.next_id + 1;
        self.judges.push(j);
        proof {
            assert(self.judges.deep_view() =~= before.push(j@));
            assert(self.judges.deep_view().take(before.len() as int) =~= before);
        }
    }

    /// Registers a batch of already-built judges, handing each a fresh id.
    pub fn insert_judges(&mut self, judges: Vec<Judge>)
        requires
            old(self).next_id + judges@.len() <= u64::MAX,
        ensures
            final(self).projects == old(self).projects,
            final(self).options == old(self).options,
            final(self).next_id == old(self).next_id + judges@.len(),
            final(self).judges.deep_view().len() == old(self).judges.deep_view().len()
                + judges@.len(),
            final(self).judges.deep_view().take(old(self).judges.deep_view().len() as int) == old(
                self,
            ).judges.deep_view(),
            forall|k: int|
                0 <= k < judges@.len() ==> final(self).judges.deep_view()[old(
                    self,
                ).judges.deep_view().len() + k] == (JudgeView {
                    id: Some((old(self).next_id + k) as u64),
                    ..#[trigger] judges.deep_view()[k]
                }),
    {
        let ghost orig = *self;
        let ghost input = judges.deep_view();
        let n = judges.len();
        let mut i: usize = 0;
        while i < n
            invariant
                n == judges@.len(),
                input == judges.deep_view(),
                orig.next_id + n <= u64::MAX,
                0 <= i <= n,
                self.projects == orig.projects,
                self.options == orig.options,
                self.next_id == orig.next_id + i,
                self.judges.deep_view().len() == orig.judges.deep_view().len() + i,
                self.judges.deep_view().take(orig.judges.deep_view().len() as int)
                    == orig.judges.deep_view(),
                forall|k: int|
                    0 <= k < i ==> self.judges.deep_view()[orig.judges.deep_view().len() + k]
                        == (JudgeView { id: Some((orig.next_id + k) as u64), ..#[trigger] input[k] }),
            decreases n - i,
        {
            let ghost before = self.judges.deep_view();
            let mut j = judges[i].clone();
            j.id = Some(self.next_id);
            self.next_id = self.next_id + 1;
            self.judges.push(j);
            proof {
                assert(self.judges.deep_view() =~= before.push(j@));
                assert(self.judges.deep_view().take(orig.judges.deep_view().len() as int)
                    =~= before.take(orig.judges.deep_view().len() as int));
                assert(j@ == (JudgeView { id: Some((orig.next_id + i) as u64), ..input[i as int] }));
            }
            i = i + 1;
        }
    }

    /// The first judge holding this login code.
    pub fn find_judge_by_code(&self, code: &str) -> (r: Result<Judge, StoreError>)
        ensures
            r is Ok <==> spec_judge_with_code(self.judges.deep_view(), code@),
            r matches Ok(j) ==> exists|i: int|
                {
                    &&& 0 <= i < self.judges.deep_view().len()
                    &&& (#[trigger] self.judges.deep_view()[i]).code == code@
                    &&& forall|k: int|
                        0 <= k < i ==> (#[trigger] self.judges.deep_view()[k]).code != code@
                    &&& j@ == self.judges.deep_view()[i]
                },
    {
        let n = self.judges.len();
        let mut i: usize = 0;
        while i < n
            invariant
                n == self.judges@.len(),
                0 <= i <= n,
                forall|j: int| 0 <= j < i ==> (#[trigger] self.judges.deep_view()[j]).code != code@,
            decreases n - i,
        {
            if str_eq(self.judges[i].code.as_str(), code) {
                let j = self.judges[i].clone();
                proof {
                    assert(self.judges.deep_view()[i as int].code == code@);
                    assert(self.judges.deep_view().contains(j@));
                }
                return Ok(j);
            }
            i = i + 1;
        }
        Err(StoreError::NotFound)
    }

    /// The first judge holding this session token.
    pub fn find_judge_by_token(&self, token: &str) -> (r: Result<Judge, StoreError>)
        ensures
            r is Ok <==> spec_judge_with_token(self.judges.deep_view(), token@),
            r matches Ok(j) ==> exists|i: int|
                {
                    &&& 0 <= i < self.judges.deep_view().len()
                    &&& (#[trigger] self.judges.deep_view()[i]).token == token@
                    &&& forall|k: int|
                        0 <= k < i ==> (#[trigger] self.judges.deep_view()[k]).token != token@
                    &&& j@ == self.judges.deep_view()[i]
                },
    {
        let n = self.judges.len();
        let mut i: usize = 0;
        while i < n
            invariant
                n == self.judges@.len(),
                0 <= i <= n,
                forall|j: int|
                    0 <= j < i ==> (#[trigger] self.judges.deep_view()[j]).token != token@,
            decreases n - i,
        {
            if str_eq(self.judges[i].token.as_str(), token) {
                let j = self.judges[i].clone();
                proof {
                    assert(self.judges.deep_view()[i as int].token == token@);
                    assert(self.judges.deep_view().contains(j@));
                }
                return Ok(j);
            }
            i = i + 1;
        }
        Err(StoreError::NotFound)
    }

    /// Stores a fresh session token on the first judge with this code; a
    /// silent no-op when the code matches nobody.
    pub fn update_judge_token(&mut self, code: &str, token: &str)
        ensures
            final(self).projects == old(self).projects,
            final(self).options == old(self).options,
            final(self).next_id == old(self).next_id,
            !spec_judge_with_code(old(self).judges.deep_view(), code@) ==> final(self).judges
                == old(self).judges,
            spec_judge_with_code(old(self).judges.deep_view(), code@) ==> exists|i: int|
                {
                    &&& 0 <= i < old(self).judges.deep_view().len()
                    &&& (#[trigger] old(self).judges.deep_view()[i]).code == code@
                    &&& forall|j: int|
                        0 <= j < i ==> (#[trigger] old(self).judges.deep_view()[j]).code != code@
                    &&& final(self).judges.deep_view() == old(self).judges.deep_view().update(
                        i,
                        JudgeView { token: token@, ..old(self).judges.deep_view()[i] },
                    )
                },
    {
        let ghost odv = self.judges.deep_view();
        let n = self.judges.len();
        let mut i: usize = 0;
        while i < n
            invariant
                odv == self.judges.deep_view(),
                n == self.judges@.len(),
                0 <= i <= n,
                *self == *old(self),
                forall|j: int| 0 <= j < i ==> (#[trigger] odv[j]).code != code@,
            decreases n - i,
        {
            if str_eq(self.judges[i].code.as_str(), code) {
                let mut j = self.judges[i].clone();
                j.token = token.to_owned();
                self.judges.set(i, j);
                proof {
                    assert(self.judges.deep_view() =~= odv.update(
                        i as int,
                        JudgeView { token: token@, ..odv[i as int] },
                    ));
                    assert(odv[i as int].code == code@);
                }
                return ;
            }
            i = i + 1;
        }
    }

    /// Latches the welcome screen as read for the first judge with this
    /// token; a silent no-op when the token matches nobody.
    pub fn read_welcome(&mut self, token: &str)
        ensures
            final(self).projects == old(self).projects,
            final(self).options == old(self).options,
            final(self).next_id == old(self).next_id,
            !spec_judge_with_token(old(self).judges.deep_view(), token@) ==> final(self).judges
                == old(self).judges,
            spec_judge_with_token(old(self).judges.deep_view(), token@) ==> exists|i: int|
                {
                    &&& 0 <= i < old(self).judges.deep_view().len()
                    &&& (#[trigger] old(self).judges.deep_view()[i]).token == token@
                    &&& forall|j: int|
                        0 <= j < i ==> (#[trigger] old(self).judges.deep_view()[j]).token != token@
                    &&& final(self).judges.deep_view() == old(self).judges.deep_view().update(
                        i,
                        JudgeView { read_welcome: true, ..old(self).judges.deep_view()[i] },
                    )
                },
    {
        let ghost odv = self.judges.deep_view();
        let n = self.judges.len();
        let mut i: usize = 0;
        while i < n
            invariant
                odv == self.judges.deep_view(),
                n == self.judges@.len(),
                0 <= i <= n,
                *self == *old(self),
                forall|j: int| 0 <= j < i ==> (#[trigger] odv[j]).token != token@,
            decreases n - i,
        {
            if str_eq(self.judges[i].token.as_str(), token) {
                let mut j = self.judges[i].clone();
                j.read_welcome = true;
                self.judges.set(i, j);
                proof {
                    assert(self.judges.deep_view() =~= odv.update(
                        i as int,
                        JudgeView { read_welcome: true, ..odv[i as int] },
                    ));
                    assert(odv[i as int].token == token@);
                }
                return ;
            }
            i = i + 1;
        }
    }

    /// Logs a judge in by code: rotates a fresh sixteen-character token
    /// onto the first judge with that code and returns it; an error when
    /// the code matches nobody.
    pub fn login(&mut self, code: &str) -> (r: Result<String, StoreError>)
        ensures
            final(self).projects == old(self).projects,
            final(self).options == old(self).options,
            final(self).next_id == old(self).next_id,
            r is Ok <==> spec_judge_with_code(old(self).judges.deep_view(), code@),
            r is Err ==> final(self).judges == old(self).judges,
            r matches Ok(t) ==> t@.len() == 16 && exists|i: int|
                {
                    &&& 0 <= i < old(self).judges.deep_view().len()
                    &&& (#[trigger] old(self).judges.deep_view()[i]).code == code@
                    &&& forall|j: int|
                        0 <= j < i ==> (#[trigger] old(self).judges.deep_view()[j]).code != code@
                    &&& final(self).judges.deep_view() == old(self).judges.deep_view().update(
                        i,
                        JudgeView { token: t@, ..old(self).judges.deep_view()[i] },
                    )
                },
    {
        let ghost odv = self.judges.deep_view();
        let n = self.judges.len();
        let mut i: usize = 0;
        while i < n
            invariant
                odv == self.judges.deep_view(),
                n == self.judges@.len(),
                0 <= i <= n,
                *self == *old(self),
                forall|j: int| 0 <= j < i ==> (#[trigger] odv[j]).code != code@,
            decreases n - i,
        {
            if str_eq(self.judges[i].code.as_str(), code) {
                let token = crate::auth::random_token();
                let mut j = self.judges[i].clone();
                j.token = token.clone();
                self.judges.set(i, j);
                proof {
                    assert(self.judges.deep_view() =~= odv.update(
                        i as int,
                        JudgeView { token: token@, ..odv[i as int] },
                    ));
                    assert(odv[i as int].code == code@);
                }
                return Ok(token);
            }
            i = i + 1;
        }
        Err(StoreError::NotFound)
    }
}


/// Total `seen` over all projects.
pub open spec fn spec_sum_seen(ps: Seq<ProjectView>) -> int
    decreases ps.len(),
{
    if ps.len() == 0 {
        0
    } else {
        spec_sum_seen(ps.drop_last()) + ps.last().seen
    }
}

/// Total `votes` over all projects.
pub open spec fn spec_sum_votes(ps: Seq<ProjectView>) -> int
    decreases ps.len(),
{
    if ps.len() == 0 {
        0
    } else {
        spec_sum_votes(ps.drop_last()) + ps.last().votes
    }
}

/// How many projects are active.
pub open spec fn spec_count_active_projects(ps: Seq<ProjectView>) -> int
    decreases ps.len(),
{
    if ps.len() == 0 {
        0
    } else {
        spec_count_active_projects(ps.drop_last()) + if ps.last().active {
            1int
        } else {
            0int
        }
    }
}

/// Total `votes` over active projects.
pub open spec fn spec_sum_active_votes(ps: Seq<ProjectView>) -> int
    decreases ps.len(),
{
    if ps.len() == 0 {
        0
    } else {
        spec_sum_active_votes(ps.drop_last()) + if ps.last().active {
            ps.last().votes as int
        } else {
            0int
        }
    }
}

/// Total `seen` over active projects.
pub open spec fn spec_sum_active_seen(ps: Seq<ProjectView>) -> int
    decreases ps.len(),
{
    if ps.len() == 0 {
        0
    } else {
        spec_sum_active_seen(ps.drop_last()) + if ps.last().active {
            ps.last().seen as int
        } else {
            0int
        }
    }
}

/// How many judges are active.
pub open spec fn spec_count_active_judges(js: Seq<JudgeView>) -> int
    decreases js.len(),
{
    if js.len() == 0 {
        0
    } else {
        spec_count_active_judges(js.drop_last()) + if js.last().active {
            1int
        } else {
            0int
        }
    }
}

/// Total `votes` over active judges.
pub open spec fn spec_sum_active_judge_votes(js: Seq<JudgeView>) -> int
    decreases js.len(),
{
    if js.len() == 0 {
        0
    } else {
        spec_sum_active_judge_votes(js.drop_last()) + if js.last().active {
            js.last().votes as int
        } else {
            0int
        }
    }
}

proof fn lemma_project_sums_take_le(ps: Seq<ProjectView>, i: int)
    requires
        0 <= i <= ps.len(),
    ensures
        spec_sum_seen(ps.take(i)) <= spec_sum_seen(ps),
        spec_sum_votes(ps.take(i)) <= spec_sum_votes(ps),
        spec_sum_active_votes(ps.take(i)) <= spec_sum_active_votes(ps),
        spec_sum_active_seen(ps.take(i)) <= spec_sum_active_seen(ps),
        spec_sum_seen(ps.take(i)) >= 0,
        spec_sum_votes(ps.take(i)) >= 0,
        spec_sum_active_votes(ps.take(i)) >= 0,
        spec_sum_active_seen(ps.take(i)) >= 0,
    decreases ps.len(),
{
    if ps.len() == 0 {
        assert(ps.take(i) =~= ps);
    } else if i == ps.len() {
        assert(ps.take(i) =~= ps);
        lemma_project_sums_take_le(ps.drop_last(), ps.len() - 1);
        assert(ps.drop_last().take(ps.len() - 1) =~= ps.drop_last());
    } else {
        assert(ps.take(i) =~= ps.drop_last().take(i));
        lemma_project_sums_take_le(ps.drop_last(), i);
    }
}

proof fn lemma_judge_sums_take_le(js: Seq<JudgeView>, i: int)
    requires
        0 <= i <= js.len(),
    ensures
        spec_sum_active_judge_votes(js.take(i)) <= spec_sum_active_judge_votes(js),
        spec_sum_active_judge_votes(js.take(i)) >= 0,
        0 <= spec_count_active_judges(js.take(i)) <= i,
    decreases js.len(),
{
    if js.len() == 0 {
        assert(js.take(i) =~= js);
    } else if i == js.len() {
        assert(js.take(i) =~= js);
        lemma_judge_sums_take_le(js.drop_last(), js.len() - 1);
        assert(js.drop_last().take(js.len() - 1) =~= js.drop_last());
    } else {
        assert(js.take(i) =~= js.drop_last().take(i));
        lemma_judge_sums_take_le(js.drop_last(), i);
    }
}

impl Store {
    /// The event-wide totals: projects, judges, total times any project
    /// was seen, total votes cast on projects.
    pub fn aggregate_stats(&self) -> (r: (u64, u64, u64, u64))
        requires
            spec_sum_seen(self.projects.deep_view()) <= u64::MAX,
            spec_sum_votes(self.projects.deep_view()) <= u64::MAX,
        ensures
            r.0 == self.projects.deep_view().len(),
            r.1 == self.judges.deep_view().len(),
            r.2 == spec_sum_seen(self.projects.deep_view()),
            r.3 == spec_sum_votes(self.projects.deep_view()),
    {
        let ghost dv = self.projects.deep_view();
        let n = self.projects.len();
        let mut seen: u64 = 0;
        let mut votes: u64 = 0;
        let mut i: usize = 0;
        while i < n
            invariant
                dv == self.projects.deep_view(),
                n == dv.len(),
                spec_sum_seen(dv) <= u64::MAX,
                spec_sum_votes(dv) <= u64::MAX,
                0 <= i <= n,
                seen == spec_sum_seen(dv.take(i as int)),
                votes == spec_sum_votes(dv.take(i as int)),
            decreases n - i,
        {
            proof {
                assert(dv.take(i + 1).drop_last() =~= dv.take(i as int));
                assert(dv.take(i + 1).last() == dv[i as int]);
                lemma_project_sums_take_le(dv, i + 1);
            }
            seen = seen + self.projects[i].seen;
            votes = votes + self.projects[i].votes;
            i = i + 1;
        }
        proof {
            assert(dv.take(n as int) =~= dv);
        }
        (n as u64, self.judges.len() as u64, seen, votes)
    }

    /// The judge totals: all judges, active judges, and votes cast by
    /// active judges.
    pub fn aggregate_judge_stats(&self) -> (r: (u64, u64, u64))
        requires
            spec_sum_active_judge_votes(self.judges.deep_view()) <= u64::MAX,
        ensures
            r.0 == self.judges.deep_view().len(),
            r.1 == spec_count_active_judges(self.judges.deep_view()),
            r.2 == spec_sum_active_judge_votes(self.judges.deep_view()),
    {
        let ghost js = self.judges.deep_view();
        let n = self.judges.len();
        let mut active: u64 = 0;
        let mut votes: u64 = 0;
        let mut i: usize = 0;
        while i < n
            invariant
                js == self.judges.deep_view(),
                n == js.len(),
                spec_sum_active_judge_votes(js) <= u64::MAX,
                0 <= i <= n,
                active == spec_count_active_judges(js.take(i as int)),
                active <= i,
                votes == spec_sum_active_judge_votes(js.take(i as int)),
            decreases n - i,
        {
            proof {
                assert(js.take(i + 1).drop_last() =~= js.take(i as int));
                assert(js.take(i + 1).last() == js[i as int]);
                lemma_judge_sums_take_le(js, i + 1);
            }
            if self.judges[i].active {
                active = active + 1;
                votes = votes + self.judges[i].votes;
            }
            i = i + 1;
        }
        proof {
            assert(js.take(n as int) =~= js);
        }
        (n as u64, active, votes)
    }

    /// The project totals among active projects: how many, their votes,
    /// and how often they were seen.
    pub fn aggregate_project_stats(&self) -> (r: (u64, u64, u64))
        requires
            spec_sum_active_votes(self.projects.deep_view()) <= u64::MAX,
            spec_sum_active_seen(self.projects.deep_view()) <= u64::MAX,
        ensures
            r.0 == spec_count_active_projects(self.projects.deep_view()),
            r.1 == spec_sum_active_votes(self.projects.deep_view()),
            r.2 == spec_sum_active_seen(self.projects.deep_view()),
    {
        let ghost dv = self.projects.deep_view();
        let n = self.projects.len();
        let mut active: u64 = 0;
        let mut votes: u64 = 0;
        let mut seen: u64 = 0;
        let mut i: usize = 0;
        while i < n
            invariant
                dv == self.projects.deep_view(),
                n == dv.len(),
                spec_sum_active_votes(dv) <= u64::MAX,
                spec_sum_active_seen(dv) <= u64::MAX,
                0 <= i <= n,
                active == spec_count_active_projects(dv.take(i as int)),
                active <= i,
                votes == spec_sum_active_votes(dv.take(i as int)),
                seen == spec_sum_active_seen(dv.take(i as int)),
            decreases n - i,
        {
            proof {
                assert(dv.take(i + 1).drop_last() =~= dv.take(i as int));
                assert(dv.take(i + 1).last() == dv[i as int]);
                lemma_project_sums_take_le(dv, i + 1);
            }
            if self.projects[i].active {
                active = active + 1;
                votes = votes + self.projects[i].votes;
                seen = seen + self.projects[i].seen;
            }
            i = i + 1;
        }
        proof {
            assert(dv.take(n as int) =~= dv);
        }
        (active, votes, seen)
    }

    /// Names and locations of the pair the judge is comparing; an error
    /// when a recorded id references no project.
    pub fn get_judge_voting_project_info(&self, judge: &Judge) -> (r: Result<
        JudgeVoteProjectInfo,
        StoreError,
    >)
        ensures
            r is Err <==> ((judge@.next matches Some(id) && !spec_project_with_id(
                self.projects.deep_view(),
                id,
            )) || (judge@.prev matches Some(id) && !spec_project_with_id(
                self.projects.deep_view(),
                id,
            ))),
            r matches Ok(info) ==> {
                &&& judge@.next is None ==> info.curr_name is None && info.curr_location is None
                &&& judge@.prev is None ==> info.prev_name is None && info.prev_location is None
                &&& judge@.next matches Some(id) ==> exists|i: int|
                    {
                        &&& 0 <= i < self.projects.deep_view().len()
                        &&& (#[trigger] self.projects.deep_view()[i]).id == Some(id)
                        &&& info.curr_name.deep_view() == Some(self.projects.deep_view()[i].name)
                        &&& info.curr_location == Some(self.projects.deep_view()[i].location)
                    }
                &&& judge@.prev matches Some(id) ==> exists|i: int|
                    {
                        &&& 0 <= i < self.projects.deep_view().len()
                        &&& (#[trigger] self.projects.deep_view()[i]).id == Some(id)
                        &&& info.prev_name.deep_view() == Some(self.projects.deep_view()[i].name)
                        &&& info.prev_location == Some(self.projects.deep_view()[i].location)
                    }
            },
    {
        let ghost dv = self.projects.deep_view();
        let (curr_name, curr_location) = match judge.next {
            Some(id) => {
                match self.find_project_by_id(id) {
                    Ok(p) => {
                        proof {
                            let w = choose|i: int| 0 <= i < dv.len() && dv[i] == p@;
                            assert(dv[w].id == Some(id));
                        }
                        (Some(p.name), Some(p.location))
                    },
                    Err(e) => {
                        return Err(e);
                    },
                }
            },
            None => (None, None),
        };
        let (prev_name, prev_location) = match judge.prev {
            Some(id) => {
                match self.find_project_by_id(id) {
                    Ok(p) => {
                        proof {
                            let w = choose|i: int| 0 <= i < dv.len() && dv[i] == p@;
                            assert(dv[w].id == Some(id));
                        }
                        (Some(p.name), Some(p.location))
                    },
                    Err(e) => {
                        return Err(e);
                    },
                }
            },
            None => (None, None),
        };
        Ok(JudgeVoteProjectInfo { curr_name, curr_location, prev_name, prev_location })
    }
}


impl Store {
    /// Writes one side of a completed comparison into the first project
    /// with this id: new posterior, `seen` up by one, `votes` up by one
    /// when it won, activity stamped.  An error when the id matches no
    /// project.
    pub fn update_project_after_vote(
        &mut self,
        id: u64,
        new_mu: u64,
        new_sigma_sq: u64,
        won: bool,
        now: i64,
    ) -> (r: Result<(), StoreError>)
        requires
            forall|i: int|
                0 <= i < old(self).projects.deep_view().len() && (#[trigger] old(
                    self,
                ).projects.deep_view()[i]).id == Some(id) ==> old(self).projects.deep_view()[i].seen
                    < u64::MAX && old(self).projects.deep_view()[i].votes < u64::MAX,
        ensures
            final(self).judges == old(self).judges,
            final(self).options == old(self).options,
            final(self).next_id == old(self).next_id,
            r is Ok <==> spec_project_with_id(old(self).projects.deep_view(), id),
            r is Err ==> final(self).projects == old(self).projects,
            r is Ok ==> exists|i: int|
                {
                    &&& 0 <= i < old(self).projects.deep_view().len()
                    &&& (#[trigger] old(self).projects.deep_view()[i]).id == Some(id)
                    &&& forall|j: int|
                        0 <= j < i ==> (#[trigger] old(self).projects.deep_view()[j]).id != Some(
                            id,
                        )
                    &&& final(self).projects.deep_view() == old(self).projects.deep_view().update(
                        i,
                        spec_project_after_vote(
                            old(self).projects.deep_view()[i],
                            new_mu,
                            new_sigma_sq,
                            won,
                            now,
                        ),
                    )
                },
    {
        let ghost odv = self.projects.deep_view();
        let n = self.projects.len();
        let mut i: usize = 0;
        while i < n
            invariant
                odv == self.projects.deep_view(),
                n == self.projects@.len(),
                0 <= i <= n,
                *self == *old(self),
                forall|k: int|
                    0 <= k < odv.len() && (#[trigger] odv[k]).id == Some(id) ==> odv[k].seen
                        < u64::MAX && odv[k].votes < u64::MAX,
                forall|j: int| 0 <= j < i ==> (#[trigger] odv[j]).id != Some(id),
            decreases n - i,
        {
            let found = match self.projects[i].id {
                Some(pid) => pid == id,
                None => false,
            };
            if found {
                let mut p = self.projects[i].clone();
                proof {
                    assert(odv[i as int].id == Some(id));
                    assert(p@ == odv[i as int]);
                }
                crate::vote::update_project_after_vote(&mut p, new_mu, new_sigma_sq, won, now);
                self.projects.set(i, p);
                proof {
                    assert(self.projects.deep_view() =~= odv.update(
                        i as int,
                        spec_project_after_vote(odv[i as int], new_mu, new_sigma_sq, won, now),
                    ));
                }
                return Ok(());
            }
            i = i + 1;
        }
        Err(StoreError::NotFound)
    }
}

} // verus!
