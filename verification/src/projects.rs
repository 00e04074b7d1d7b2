//! Remote projects: what is made of the answers of the remote API.
//!
//! The remote calls are the caller's. A repository whose data cannot be had
//! is listed with a degraded record, so one failure never empties the list.
//! The feature flag and the image of a project always come from the current
//! configuration, also where the rest comes from the cache.

use vstd::prelude::*;
use crate::cache::TtlCache;
use crate::markdown::{readme_from_payload, readme_of_payload, readme_placeholder, ReadmeError};
use crate::models::{copy_opt_string, opt_text, GitHubProject, GitHubRepo, ProjectView, RepoView};
use crate::text::{append_str, string_of};

verus! {

/// What the remote API told of a repository; a field is `None` where the
/// answer did not hold it.
#[derive(Debug)]
pub struct RepoMetadata {
    pub html_url: Option<String>,
    pub stargazers_count: Option<u64>,
    pub forks_count: Option<u64>,
    pub description: Option<String>,
}

/// Why the data of a repository could not be had.
#[derive(Clone, Copy, Debug, PartialEq, Eq, Structural)]
pub enum FetchError {
    /// The remote API did not answer, or answered with a failure.
    Remote,
    /// The README came but could not be read.
    Readme(ReadmeError),
}

/// The key under which a repository's project is cached.
pub open spec fn project_key(owner: Seq<char>, repo: Seq<char>) -> Seq<char> {
    owner + "/"@ + repo
}

/// The address of a repository's metadata at the remote API.
pub open spec fn metadata_url(owner: Seq<char>, repo: Seq<char>) -> Seq<char> {
    "https://api.github.com/repos/"@ + owner + "/"@ + repo
}

/// The address of a repository's page.
pub open spec fn page_url(owner: Seq<char>, repo: Seq<char>) -> Seq<char> {
    "https://github.com/"@ + owner + "/"@ + repo
}

/// A count as it is shown: its low 32 bits, zero where it is unknown.
pub open spec fn shown_count(n: Option<u64>) -> u32 {
    match n {
        Some(v) => (v % 0x1_0000_0000) as u32,
        None => 0,
    }
}

/// The project made of a repository's metadata and its rendered README.
pub open spec fn fetched_project(repo: RepoView, meta: RepoMetadata, readme: Seq<char>)
    -> ProjectView {
    ProjectView {
        owner: repo.owner,
        repo: repo.repo,
        display_name: repo.display_name,
        readme_html: readme,
        url: match meta.html_url {
            Some(u) => u@,
            None => Seq::empty(),
        },
        stars: shown_count(meta.stargazers_count),
        forks: shown_count(meta.forks_count),
        description: opt_text(meta.description),
        feature: repo.feature,
        image: repo.image,
    }
}

/// The record that stands for a repository whose data could not be had.
pub open spec fn degraded_project(repo: RepoView) -> ProjectView {
    ProjectView {
        owner: repo.owner,
        repo: repo.repo,
        display_name: repo.display_name,
        readme_html: readme_placeholder(),
        url: page_url(repo.owner, repo.repo),
        stars: 0,
        forks: 0,
        description: Some("GitHub repository"@),
        feature: repo.feature,
        image: repo.image,
    }
}

/// A project with the feature flag and the image of the configuration.
pub open spec fn overlaid(project: ProjectView, repo: RepoView) -> ProjectView {
    ProjectView { feature: repo.feature, image: repo.image, ..project }
}

/// What is listed for a repository, given the outcome of fetching it.
pub open spec fn settled(repo: RepoView, outcome: Result<ProjectView, FetchError>) -> ProjectView {
    match outcome {
        Ok(project) => overlaid(project, repo),
        Err(_) => degraded_project(repo),
    }
}

/// The outcome of a fetch as plain values.
pub open spec fn outcome_view(outcome: Result<GitHubProject, FetchError>) -> Result<
    ProjectView,
    FetchError,
> {
    match outcome {
        Ok(p) => Ok(p@),
        Err(e) => Err(e),
    }
}

/// The configured repositories as plain values.
pub open spec fn repo_views(repos: Seq<GitHubRepo>) -> Seq<RepoView> {
    repos.map_values(|r: GitHubRepo| r@)
}

/// The outcomes of the fetches as plain values.
pub open spec fn outcome_views(outcomes: Seq<Result<GitHubProject, FetchError>>) -> Seq<
    Result<ProjectView, FetchError>,
> {
    outcomes.map_values(|o: Result<GitHubProject, FetchError>| outcome_view(o))
}

/// The projects as plain values.
pub open spec fn project_views(projects: Seq<GitHubProject>) -> Seq<ProjectView> {
    projects.map_values(|p: GitHubProject| p@)
}

/// The list of projects for the configured repositories, given the
/// outcome of each fetch in order; a fetch that was not made counts as
/// failed.
pub open spec fn listing(repos: Seq<RepoView>, outcomes: Seq<Result<ProjectView, FetchError>>)
    -> Seq<ProjectView> {
    Seq::new(
        repos.len(),
        |i: int|
            settled(
                repos[i],
                if 0 <= i < outcomes.len() {
                    outcomes[i]
                } else {
                    Err(FetchError::Remote)
                },
            ),
    )
}

/// Joins two names with a slash behind a prefix.
fn joined(prefix: &str, owner: &str, repo: &str) -> (s: String)
    ensures
        s@ == prefix@ + owner@ + "/"@ + repo@,
{
    let mut out: Vec<char> = Vec::new();
    append_str(&mut out, prefix);
    append_str(&mut out, owner);
    append_str(&mut out, "/");
    append_str(&mut out, repo);
    proof {
        assert(out@ =~= prefix@ + owner@ + "/"@ + repo@);
    }
    string_of(out.as_slice())
}

/// The key under which the project of `repo` is cached.
pub fn project_cache_key(repo: &GitHubRepo) -> (key: String)
    ensures
        key@ == project_key(repo.owner@, repo.repo@),
{
    proof {
        reveal_strlit("");
        assert(""@ + repo.owner@ =~= repo.owner@);
    }
    joined("", repo.owner.as_str(), repo.repo.as_str())
}

/// The address to ask for the metadata of `repo`.
pub fn repository_api_url(repo: &GitHubRepo) -> (url: String)
    ensures
        url@ == metadata_url(repo.owner@, repo.repo@),
{
    joined("https://api.github.com/repos/", repo.owner.as_str(), repo.repo.as_str())
}

/// The address to ask for the README of `repo`.
pub fn readme_api_url(repo: &GitHubRepo) -> (url: String)
    ensures
        url@ == metadata_url(repo.owner@, repo.repo@) + "/readme"@,
{
    let mut url = joined("https://api.github.com/repos/", repo.owner.as_str(), repo.repo.as_str());
    url.append("/readme");
    url
}

/// A count as it is shown.
fn show_count(n: Option<u64>) -> (c: u32)
    ensures
        c == shown_count(n),
{
    match n {
        Some(v) => (v % 0x1_0000_0000) as u32,
        None => 0,
    }
}

/// Makes the project of a repository from the answers of the remote API:
/// `metadata` is `None` where the repository could not be fetched, and
/// `readme_content` is the base64 payload of its README, `None` where
/// there is none.
pub fn fetch_github_project(
    repo: &GitHubRepo,
    metadata: Option<RepoMetadata>,
    readme_content: Option<&str>,
) -> (r: Result<GitHubProject, FetchError>)
    ensures
        match metadata {
            None => r == Err::<GitHubProject, FetchError>(FetchError::Remote),
            Some(meta) => match readme_of_payload(
                match readme_content {
                    Some(c) => Some(c@),
                    None => None,
                },
                repo.owner@,
                repo.repo@,
            ) {
                Err(e) => r == Err::<GitHubProject, FetchError>(FetchError::Readme(e)),
                Ok(html) => r matches Ok(p) && p@ == fetched_project(repo@, meta, html),
            },
        },
{
    let meta = match metadata {
        None => {
            return Err(FetchError::Remote);
        },
        Some(meta) => meta,
    };
    let readme_html = match readme_from_payload(
        readme_content,
        repo.owner.as_str(),
        repo.repo.as_str(),
    ) {
        Err(e) => {
            return Err(FetchError::Readme(e));
        },
        Ok(html) => html,
    };
    let url = match &meta.html_url {
        Some(u) => u.clone(),
        None => String::new(),
    };
    Ok(
        GitHubProject {
            owner: repo.owner.clone(),
            repo: repo.repo.clone(),
            display_name: repo.display_name.clone(),
            readme_html,
            url,
            stars: show_count(meta.stargazers_count),
            forks: show_count(meta.forks_count),
            description: copy_opt_string(&meta.description),
            feature: repo.feature,
            image: copy_opt_string(&repo.image),
        },
    )
}

/// The degraded record of a repository.
pub fn degrade_project(repo: &GitHubRepo) -> (p: GitHubProject)
    ensures
        p@ == degraded_project(repo@),
{
    GitHubProject {
        owner: repo.owner.clone(),
        repo: repo.repo.clone(),
        display_name: repo.display_name.clone(),
        readme_html: String::from_str("README not available"),
        url: joined("https://github.com/", repo.owner.as_str(), repo.repo.as_str()),
        stars: 0,
        forks: 0,
        description: Some(String::from_str("GitHub repository")),
        feature: repo.feature,
        image: copy_opt_string(&repo.image),
    }
}

/// Gives a project the feature flag and the image of the configuration.
pub fn overlay_config(project: GitHubProject, repo: &GitHubRepo) -> (p: GitHubProject)
    ensures
        p@ == overlaid(project@, repo@),
{
    let mut p = project;
    p.feature = repo.feature;
    p.image = copy_opt_string(&repo.image);
    p
}

/// What is listed for a repository, given the outcome of fetching it.
pub fn settle_project(repo: &GitHubRepo, outcome: Result<GitHubProject, FetchError>) -> (p:
    GitHubProject)
    ensures
        p@ == settled(repo@, outcome_view(outcome)),
{
    match outcome {
        Ok(project) => overlay_config(project, repo),
        Err(_) => degrade_project(repo),
    }
}

/// Reads the project of `repo` from the cache, if a fresh one is there.
pub fn cached_project(cache: &TtlCache<GitHubProject>, repo: &GitHubRepo, now: i64) -> (r: Option<
    GitHubProject,
>)
    ensures
        match cache.lookup(project_key(repo.owner@, repo.repo@), now as int) {
            Some(stored) => r matches Some(p) && p@ == stored@,
            None => r is None,
        },
{
    let key = project_cache_key(repo);
    match cache.get(key.as_str(), now) {
        Some(stored) => Some(stored.duplicate()),
        None => None,
    }
}

/// The cache holds `project` under `key` with the time `now`, and under
/// every other key what it held before.
pub open spec fn stored_under(
    before: Map<Seq<char>, (GitHubProject, int)>,
    after: Map<Seq<char>, (GitHubProject, int)>,
    key: Seq<char>,
    project: ProjectView,
    now: int,
) -> bool {
    &&& after.dom() == before.dom().insert(key)
    &&& after[key].0@ == project
    &&& after[key].1 == now
    &&& forall|k: Seq<char>| k != key && before.contains_key(k) ==> after[k] == before[k]
}

/// Stores a fetched project under the key of `repo`, with the feature flag
/// and the image of the configuration.
pub fn store_project(
    cache: &mut TtlCache<GitHubProject>,
    repo: &GitHubRepo,
    project: &GitHubProject,
    now: i64,
)
    ensures
        final(cache).spec_window() == old(cache).spec_window(),
        stored_under(
            old(cache)@,
            final(cache)@,
            project_key(repo.owner@, repo.repo@),
            overlaid(project@, repo@),
            now as int,
        ),
{
    let key = project_cache_key(repo);
    let stored = overlay_config(project.duplicate(), repo);
    cache.put(key.as_str(), stored, now);
}

/// Records the outcome of fetching `repo`: a fetched project is stored as
/// `store_project` stores it, and a failure leaves the cache as it was, so
/// that the next request tries again.
pub fn record_fetch(
    cache: &mut TtlCache<GitHubProject>,
    repo: &GitHubRepo,
    outcome: &Result<GitHubProject, FetchError>,
    now: i64,
)
    ensures
        final(cache).spec_window() == old(cache).spec_window(),
        match *outcome {
            Ok(project) => stored_under(
                old(cache)@,
                final(cache)@,
                project_key(repo.owner@, repo.repo@),
                overlaid(project@, repo@),
                now as int,
            ),
            Err(_) => final(cache)@ == old(cache)@,
        },
{
    match outcome {
        Ok(project) => store_project(cache, repo, project, now),
        Err(_) => {},
    }
}

/// Lists the configured repositories from the outcomes of fetching them,
/// one outcome for each repository in order: a fetched project is listed
/// with the configuration laid over it, a failed one with its degraded
/// record.
pub fn settle_projects(
    repos: &Vec<GitHubRepo>,
    outcomes: Vec<Result<GitHubProject, FetchError>>,
) -> (projects: Vec<GitHubProject>)
    ensures
        project_views(projects@) == listing(repo_views(repos@), outcome_views(outcomes@)),
{
    let ghost all = outcomes@;
    let mut rest = outcomes;
    let mut projects: Vec<GitHubProject> = Vec::new();
    let mut i: usize = 0;
    while i < repos.len()
        invariant
            i <= repos@.len(),
            projects@.len() == i,
            rest@.len() == (if i <= all.len() {
                all.len() - i
            } else {
                0
            }),
            forall|k: int| 0 <= k < rest@.len() ==> rest@[k] == all[i + k],
            forall|k: int|
                0 <= k < i ==> (#[trigger] projects@[k])@ == listing(
                    repo_views(repos@),
                    outcome_views(all),
                )[k],
        decreases repos.len() - i,
    {
        let outcome = if rest.len() > 0 {
            rest.remove(0)
        } else {
            Err(FetchError::Remote)
        };
        let p = settle_project(&repos[i], outcome);
        projects.push(p);
        i += 1;
    }
    proof {
        assert(project_views(projects@) =~= listing(repo_views(repos@), outcome_views(all)));
    }
    projects
}

/// A failed fetch changes nothing but its own entry: the list has one
/// project for every configured repository, the failed one is listed under
/// its own owner and name, and every other entry is what it would have been
/// had the fetch succeeded.
pub proof fn lemma_failure_keeps_the_others(
    repos: Seq<RepoView>,
    outcomes: Seq<Result<ProjectView, FetchError>>,
    k: int,
    e: FetchError,
)
    requires
        outcomes.len() == repos.len(),
        0 <= k < repos.len(),
    ensures
        listing(repos, outcomes.update(k, Err(e))).len() == repos.len(),
        listing(repos, outcomes.update(k, Err(e)))[k] == degraded_project(repos[k]),
        listing(repos, outcomes.update(k, Err(e)))[k].owner == repos[k].owner,
        listing(repos, outcomes.update(k, Err(e)))[k].repo == repos[k].repo,
        forall|i: int|
            0 <= i < repos.len() && i != k ==> listing(repos, outcomes.update(k, Err(e)))[i]
                == listing(repos, outcomes)[i],
{
}

} // verus!
