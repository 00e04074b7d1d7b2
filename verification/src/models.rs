//! The records that the backend hands out and takes in.

use vstd::prelude::*;

verus! {

/// The metadata that heads a document.
#[derive(Debug, Clone)]
pub struct ContentMetadata {
    pub title: String,
    pub date: String,
    pub tags: Vec<String>,
    pub description: String,
    pub image: Option<String>,
    pub feature: Option<bool>,
}

/// A document: its identity, its metadata and its rendered body.
#[derive(Debug, Clone)]
pub struct ContentItem {
    pub slug: String,
    pub metadata: ContentMetadata,
    pub html_content: String,
    pub category: String,
}

/// A document with the time, in seconds, at which it was rendered.
#[derive(Debug, Clone)]
pub struct CachedContent {
    pub content: ContentItem,
    pub cached_at: i64,
}

/// A configured remote repository.
#[derive(Debug, Clone)]
pub struct GitHubRepo {
    pub owner: String,
    pub repo: String,
    pub display_name: String,
    pub feature: Option<bool>,
    pub image: Option<String>,
}

/// What is shown of a remote repository.
#[derive(Debug, Clone)]
pub struct GitHubProject {
    pub owner: String,
    pub repo: String,
    pub display_name: String,
    pub readme_html: String,
    pub url: String,
    pub stars: u32,
    pub forks: u32,
    pub description: Option<String>,
    pub feature: Option<bool>,
    pub image: Option<String>,
}

/// A remote project with the time, in seconds, at which it was fetched.
#[derive(Debug, Clone)]
pub struct CachedGithubProject {
    pub project: GitHubProject,
    pub cached_at: i64,
}

/// The configured remote repositories.
#[derive(Debug, Clone)]
pub struct GitHubConfig {
    pub repositories: Vec<GitHubRepo>,
}

/// The uniform wrapping of every outward result.
#[derive(Debug)]
pub struct ApiResponse<T> {
    pub success: bool,
    pub data: Option<T>,
    pub message: String,
}

impl<T> ApiResponse<T> {
    /// A successful result that carries `data`.
    pub fn success(data: T) -> (r: Self)
        ensures
            r.success,
            r.data == Some(data),
            r.message@ == "Success"@,
    {
        ApiResponse { success: true, data: Some(data), message: String::from_str("Success") }
    }

    /// A failure with its message and no payload.
    pub fn error(message: &str) -> (r: Self)
        ensures
            !r.success,
            r.data is None,
            r.message@ == message@,
    {
        ApiResponse { success: false, data: None, message: String::from_str(message) }
    }
}

#[derive(Debug)]
pub struct LoginRequest {
    pub username: String,
    pub password: String,
}

/// A token with the time, in seconds, at which it expires.
#[derive(Debug)]
pub struct LoginResponse {
    pub token: String,
    pub expires_at: i64,
}

/// The claims of a token: subject, expiry and issue time in seconds, role.
#[derive(Debug)]
pub struct Claims {
    pub sub: String,
    pub exp: i64,
    pub iat: i64,
    pub role: String,
}

#[derive(Debug)]
pub struct AuthUser {
    pub username: String,
    pub password_hash: String,
    pub role: String,
}

/// One entry of a directory listing.
#[derive(Debug)]
pub struct FileItem {
    pub name: String,
    pub path: String,
    pub is_directory: bool,
    pub size: Option<u64>,
    pub modified: Option<String>,
}

/// A directory listing.
#[derive(Debug)]
pub struct DirectoryContents {
    pub current_path: String,
    pub parent_path: Option<String>,
    pub items: Vec<FileItem>,
}

#[derive(Debug)]
pub struct FileOperationRequest {
    pub path: String,
}

#[derive(Debug)]
pub struct FileRenameRequest {
    pub old_path: String,
    pub new_path: String,
}

#[derive(Debug)]
pub struct FileMoveRequest {
    pub source_path: String,
    pub destination_path: String,
}

#[derive(Debug)]
pub struct FileContentRequest {
    pub content: String,
}

/// Where the server listens and where its files lie.
#[derive(Clone)]
pub struct AppConfig {
    pub host: String,
    pub port: u16,
    pub content_path: String,
    pub frontend_path: String,
    pub frontend_url: String,
}

/// The text of an optional string.
pub open spec fn opt_text(s: Option<String>) -> Option<Seq<char>> {
    match s {
        Some(t) => Some(t@),
        None => None,
    }
}

/// A configured repository as plain values.
pub struct RepoView {
    pub owner: Seq<char>,
    pub repo: Seq<char>,
    pub display_name: Seq<char>,
    pub feature: Option<bool>,
    pub image: Option<Seq<char>>,
}

/// A remote project as plain values.
pub struct ProjectView {
    pub owner: Seq<char>,
    pub repo: Seq<char>,
    pub display_name: Seq<char>,
    pub readme_html: Seq<char>,
    pub url: Seq<char>,
    pub stars: u32,
    pub forks: u32,
    pub description: Option<Seq<char>>,
    pub feature: Option<bool>,
    pub image: Option<Seq<char>>,
}

impl View for GitHubRepo {
    type V = RepoView;

    open spec fn view(&self) -> RepoView {
        RepoView {
            owner: self.owner@,
            repo: self.repo@,
            display_name: self.display_name@,
            feature: self.feature,
            image: opt_text(self.image),
        }
    }
}

impl View for GitHubProject {
    type V = ProjectView;

    open spec fn view(&self) -> ProjectView {
        ProjectView {
            owner: self.owner@,
            repo: self.repo@,
            display_name: self.display_name@,
            readme_html: self.readme_html@,
            url: self.url@,
            stars: self.stars,
            forks: self.forks,
            description: opt_text(self.description),
            feature: self.feature,
            image: opt_text(self.image),
        }
    }
}

/// A copy of an optional string.
pub fn copy_opt_string(s: &Option<String>) -> (r: Option<String>)
    ensures
        opt_text(r) == opt_text(*s),
{
    match s {
        Some(t) => Some(t.clone()),
        None => None,
    }
}

impl GitHubProject {
    /// A copy of the project.
    pub fn duplicate(&self) -> (r: GitHubProject)
        ensures
            r@ == self@,
    {
        GitHubProject {
            owner: self.owner.clone(),
            repo: self.repo.clone(),
            display_name: self.display_name.clone(),
            readme_html: self.readme_html.clone(),
            url: self.url.clone(),
            stars: self.stars,
            forks: self.forks,
            description: copy_opt_string(&self.description),
            feature: self.feature,
            image: copy_opt_string(&self.image),
        }
    }
}

} // verus!
