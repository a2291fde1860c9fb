//! Request and response bodies exchanged with the surrounding server, and
//! their conversions into model documents.

use vstd::prelude::*;
use crate::models::{ALPHA_PRIOR_BITS, BETA_PRIOR_BITS, Judge, MU_PRIOR_BITS, Project, ProjectView, SIGMA_SQ_PRIOR_BITS};

verus! {

/// A judge login request: the six-digit code.
pub struct Login {
    pub code: String,
}

/// An admin login request.
pub struct AdminLogin {
    pub password: String,
}

/// A CSV upload from the admin panel.
pub struct CsvUpload {
    pub csv: String,
    pub has_header: bool,
}

/// A new judge submitted by an admin.
pub struct NewJudge {
    pub name: String,
    pub email: String,
    pub notes: Option<String>,
}

impl NewJudge {
    /// Builds the judge document: a fresh code is drawn, posteriors start
    /// at their priors, and absent notes become empty.
    pub fn into_judge(self) -> (j: Judge)
        ensures
            j@.id == None::<u64>,
            j@.token.len() == 0,
            j@.code.len() == 6,
            j@.name == self.name@,
            j@.email == self.email@,
            j@.active,
            !j@.read_welcome,
            j@.notes == (match self.notes {
                Some(n) => n@,
                None => Seq::<char>::empty(),
            }),
            j@.votes == 0u64,
            j@.next == None::<u64>,
            j@.prev == None::<u64>,
            j@.alpha == ALPHA_PRIOR_BITS,
            j@.beta == BETA_PRIOR_BITS,
            j@.last_activity == 0i64,
    {
        let notes = match self.notes {
            Some(n) => n,
            None => String::new(),
        };
        Judge::new(self.name, self.email, notes)
    }
}

/// A new project submitted by an admin.
pub struct NewProject {
    pub name: String,
    pub description: String,
    pub try_link: Option<String>,
    pub video_link: Option<String>,
    pub challenge_list: Vec<String>,
}

impl NewProject {
    /// Builds the project document with default posteriors and no
    /// location assigned yet.
    pub fn into_project(self) -> (p: Project)
        ensures
            p@ == (ProjectView {
                id: None::<u64>,
                name: self.name@,
                location: 0u64,
                description: self.description@,
                try_link: self.try_link.deep_view(),
                video_link: self.video_link.deep_view(),
                challenge_list: self.challenge_list.deep_view(),
                seen: 0u64,
                votes: 0u64,
                mu: MU_PRIOR_BITS,
                sigma_sq: SIGMA_SQ_PRIOR_BITS,
                active: true,
                prioritized: false,
                last_activity: 0i64,
            }),
    {
        Project::new(
            self.name,
            self.description,
            self.try_link,
            self.video_link,
            self.challenge_list,
        )
    }
}

/// Names and locations of the pair a judge is currently comparing.
pub struct JudgeVoteProjectInfo {
    pub curr_name: Option<String>,
    pub curr_location: Option<u64>,
    pub prev_name: Option<String>,
    pub prev_location: Option<u64>,
}

/// One judge row of a previewed CSV upload.
pub struct JudgeCsvResponse {
    pub name: String,
    pub email: String,
    pub notes: String,
}

/// One project row of a previewed CSV upload.
pub struct ProjectCsvResponse {
    pub name: String,
    pub description: String,
    pub try_link: Option<String>,
    pub video_link: Option<String>,
    pub challenge_list: Vec<String>,
}

/// A project row as exported by the external submission platform.
pub struct DevpostProject {
    pub title: String,
    pub url: Option<String>,
    pub description: Option<String>,
    pub try_link: Option<String>,
    pub video_link: Option<String>,
    /// The opted-in prize tracks.
    pub challenge_list: Vec<String>,
    /// Answers to event-specific questions.
    pub custom_questions: Vec<String>,
}

} // verus!
