//! The persistent data model: projects, judges and the options singleton.
//!
//! Skill posteriors (`mu`, `sigma_sq`) and reliability posteriors (`alpha`,
//! `beta`) are carried through the verified core as opaque 64-bit words:
//! the numeric engine that produces and consumes them works outside the
//! core on their floating-point decoding, while the logic here only stores
//! and moves them.  Document identities are plain integers; timestamps are
//! epoch milliseconds.

use vstd::prelude::*;

verus! {

/// Opaque 64-bit encoding of the prior skill mean.
pub const MU_PRIOR_BITS: u64 = 0x0000_0000_0000_0000;

/// Opaque 64-bit encoding of the prior skill variance.
pub const SIGMA_SQ_PRIOR_BITS: u64 = 0x3FF0_0000_0000_0000;

/// Opaque 64-bit encoding of the prior annotator `alpha`.
pub const ALPHA_PRIOR_BITS: u64 = 0x4024_0000_0000_0000;

/// Opaque 64-bit encoding of the prior annotator `beta`.
pub const BETA_PRIOR_BITS: u64 = 0x3FF0_0000_0000_0000;

/// The options singleton: hands out table locations.
#[derive(Clone, Copy, Debug, PartialEq, Eq, Structural)]
pub struct Options {
    pub id: Option<u64>,
    /// The next unused table location.
    pub next_table_num: u32,
}

impl Options {
    /// A fresh options document: locations start at 1.
    pub fn new() -> (o: Options)
        ensures
            o == (Options { id: None::<u64>, next_table_num: 1u32 }),
    {
        Options { id: None, next_table_num: 1 }
    }

    /// Hands out the current table location and advances the counter.
    pub fn get_next_table_num(&mut self) -> (n: u32)
        requires
            old(self).next_table_num < u32::MAX,
        ensures
            n == old(self).next_table_num,
            final(self).next_table_num == old(self).next_table_num + 1,
            final(self).id == old(self).id,
    {
        self.next_table_num = self.next_table_num + 1;
        self.next_table_num - 1
    }
}

/// Mathematical image of a project: strings as character sequences,
/// everything else as plain values.
pub ghost struct ProjectView {
    pub id: Option<u64>,
    pub name: Seq<char>,
    pub location: u64,
    pub description: Seq<char>,
    pub try_link: Option<Seq<char>>,
    pub video_link: Option<Seq<char>>,
    pub challenge_list: Seq<Seq<char>>,
    pub seen: u64,
    pub votes: u64,
    pub mu: u64,
    pub sigma_sq: u64,
    pub active: bool,
    pub prioritized: bool,
    pub last_activity: i64,
}

/// A project on the expo floor.
pub struct Project {
    pub id: Option<u64>,
    pub name: String,
    /// Table location; unique, assigned densely from 1 in insertion order.
    pub location: u64,
    pub description: String,
    pub try_link: Option<String>,
    pub video_link: Option<String>,
    pub challenge_list: Vec<String>,
    /// Times this project was shown to a judge.
    pub seen: u64,
    /// Times this project won a comparison.
    pub votes: u64,
    /// Opaque encoding of the skill posterior mean.
    pub mu: u64,
    /// Opaque encoding of the skill posterior variance.
    pub sigma_sq: u64,
    pub active: bool,
    pub prioritized: bool,
    /// Epoch milliseconds of the last vote touching this project.
    pub last_activity: i64,
}

impl View for Project {
    type V = ProjectView;

    open spec fn view(&self) -> ProjectView {
        ProjectView {
            id: self.id,
            name: self.name@,
            location: self.location,
            description: self.description@,
            try_link: self.try_link.deep_view(),
            video_link: self.video_link.deep_view(),
            challenge_list: self.challenge_list.deep_view(),
            seen: self.seen,
            votes: self.votes,
            mu: self.mu,
            sigma_sq: self.sigma_sq,
            active: self.active,
            prioritized: self.prioritized,
            last_activity: self.last_activity,
        }
    }
}

impl DeepView for Project {
    type V = ProjectView;

    open spec fn deep_view(&self) -> ProjectView {
        self.view()
    }
}

impl Clone for Project {
    fn clone(&self) -> (p: Project)
        ensures
            p@ == self@,
    {
        let p = Project {
            id: self.id,
            name: self.name.clone(),
            location: self.location,
            description: self.description.clone(),
            try_link: self.try_link.clone(),
            video_link: self.video_link.clone(),
            challenge_list: self.challenge_list.clone(),
            seen: self.seen,
            votes: self.votes,
            mu: self.mu,
            sigma_sq: self.sigma_sq,
            active: self.active,
            prioritized: self.prioritized,
            last_activity: self.last_activity,
        };
        proof {
            assert(p.try_link.deep_view() =~= self.try_link.deep_view());
            assert(p.video_link.deep_view() =~= self.video_link.deep_view());
            assert(p.challenge_list.deep_view() =~= self.challenge_list.deep_view());
        }
        p
    }
}

impl Project {
    /// A newly ingested project: default posteriors, active, location not
    /// yet assigned.
    pub fn new(
        name: String,
        description: String,
        try_link: Option<String>,
        video_link: Option<String>,
        challenge_list: Vec<String>,
    ) -> (p: Project)
        ensures
            p@ == (ProjectView {
                id: None::<u64>,
                name: name@,
                location: 0u64,
                description: description@,
                try_link: try_link.deep_view(),
                video_link: video_link.deep_view(),
                challenge_list: challenge_list.deep_view(),
                seen: 0u64,
                votes: 0u64,
                mu: MU_PRIOR_BITS,
                sigma_sq: SIGMA_SQ_PRIOR_BITS,
                active: true,
                prioritized: false,
                last_activity: 0i64,
            }),
    {
        Project {
            id: None,
            name,
            location: 0,
            description,
            try_link,
            video_link,
            challenge_list,
            seen: 0,
            votes: 0,
            mu: MU_PRIOR_BITS,
            sigma_sq: SIGMA_SQ_PRIOR_BITS,
            active: true,
            prioritized: false,
            last_activity: 0,
        }
    }
}

/// Mathematical image of a judge.
pub ghost struct JudgeView {
    pub id: Option<u64>,
    pub token: Seq<char>,
    pub code: Seq<char>,
    pub name: Seq<char>,
    pub email: Seq<char>,
    pub active: bool,
    pub last_activity: i64,
    pub read_welcome: bool,
    pub notes: Seq<char>,
    pub votes: u64,
    pub next: Option<u64>,
    pub prev: Option<u64>,
    pub alpha: u64,
    pub beta: u64,
}

/// A human judge and the per-judge voting state.
pub struct Judge {
    pub id: Option<u64>,
    /// Opaque session token, rotated on each login.
    pub token: String,
    /// Six-digit login code.
    pub code: String,
    pub name: String,
    pub email: String,
    pub active: bool,
    /// Epoch milliseconds of the judge's last action.
    pub last_activity: i64,
    pub read_welcome: bool,
    pub notes: String,
    /// Completed comparisons by this judge.
    pub votes: u64,
    /// The project the judge is currently walking to, if any.
    pub next: Option<u64>,
    /// The project the judge saw before that, if any.
    pub prev: Option<u64>,
    /// Opaque encoding of the reliability posterior `alpha`.
    pub alpha: u64,
    /// Opaque encoding of the reliability posterior `beta`.
    pub beta: u64,
}

impl View for Judge {
    type V = JudgeView;

    open spec fn view(&self) -> JudgeView {
        JudgeView {
            id: self.id,
            token: self.token@,
            code: self.code@,
            name: self.name@,
            email: self.email@,
            active: self.active,
            last_activity: self.last_activity,
            read_welcome: self.read_welcome,
            notes: self.notes@,
            votes: self.votes,
            next: self.next,
            prev: self.prev,
            alpha: self.alpha,
            beta: self.beta,
        }
    }
}

impl DeepView for Judge {
    type V = JudgeView;

    open spec fn deep_view(&self) -> JudgeView {
        self.view()
    }
}

impl Clone for Judge {
    fn clone(&self) -> (j: Judge)
        ensures
            j@ == self@,
    {
        Judge {
            id: self.id,
            token: self.token.clone(),
            code: self.code.clone(),
            name: self.name.clone(),
            email: self.email.clone(),
            active: self.active,
            last_activity: self.last_activity,
            read_welcome: self.read_welcome,
            notes: self.notes.clone(),
            votes: self.votes,
            next: self.next,
            prev: self.prev,
            alpha: self.alpha,
            beta: self.beta,
        }
    }
}

/// Draws a fresh six-digit login code.
///
/// Relies on `rand::Rng::gen_range(100_000..999_999)`: the draw lies in
/// that range, so its decimal form has exactly six digits.
#[verifier::external_body]
fn random_judge_code() -> (code: String)
    ensures
        code@.len() == 6,
{
    <rand::rngs::ThreadRng as rand::Rng>::gen_range(&mut rand::thread_rng(), 100_000..999_999)
        .to_string()
}

impl Judge {
    /// A newly registered judge: prior reliability posterior, a freshly
    /// drawn six-digit code, no projects assigned yet.
    pub fn new(name: String, email: String, notes: String) -> (j: Judge)
        ensures
            j@.id == None::<u64>,
            j@.token.len() == 0,
            j@.code.len() == 6,
            j@.name == name@,
            j@.email == email@,
            j@.active,
            j@.last_activity == 0i64,
            !j@.read_welcome,
            j@.notes == notes@,
            j@.votes == 0u64,
            j@.next == None::<u64>,
            j@.prev == None::<u64>,
            j@.alpha == ALPHA_PRIOR_BITS,
            j@.beta == BETA_PRIOR_BITS,
    {
        Judge {
            id: None,
            token: String::new(),
            code: random_judge_code(),
            name,
            email,
            active: true,
            last_activity: 0,
            read_welcome: false,
            notes,
            votes: 0,
            next: None,
            prev: None,
            alpha: ALPHA_PRIOR_BITS,
            beta: BETA_PRIOR_BITS,
        }
    }

    /// A judge with empty display fields; used as a placeholder.
    pub fn default() -> (j: Judge)
        ensures
            j@.id == None::<u64>,
            j@.token.len() == 0,
            j@.code.len() == 6,
            j@.name.len() == 0,
            j@.email.len() == 0,
            j@.active,
            j@.last_activity == 0i64,
            !j@.read_welcome,
            j@.notes.len() == 0,
            j@.votes == 0u64,
            j@.next == None::<u64>,
            j@.prev == None::<u64>,
            j@.alpha == ALPHA_PRIOR_BITS,
            j@.beta == BETA_PRIOR_BITS,
    {
        Self::new(String::new(), String::new(), String::new())
    }
}

} // verus!
