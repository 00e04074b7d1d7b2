//! Core of a content-serving backend: path confinement, time-bounded
//! caching, document framing and rendering, rewriting of remote README
//! images, and the decisions behind an administrative file manager.
//!
//! The library does no I/O. Callers probe the filesystem, read the clock
//! and talk to the network, and hand in what they found as plain values.

pub mod text;
pub mod order;
pub mod validation;
pub mod paths;
pub mod images;
pub mod markdown;
pub mod models;
pub mod auth;
pub mod cache;
pub mod content;
pub mod files;
pub mod projects;

pub use auth::{bearer_token, check_admin_claims, hash_password, verify_password, AuthFailure};
pub use cache::{CacheEntry, TtlCache, DOCUMENT_WINDOW_SECS, PROJECT_WINDOW_SECS};
pub use content::{collect_tags, content_cache_key, document_stem_of, is_document_file,
    list_documents, lookup_content, parse_markdown_file, slug_of_path, split_front_matter,
    store_content, ContentError, FramedDocument, RequestFault};
pub use files::{delete_file_or_folder, file_entry, format_modified, handle_file_upload,
    list_directory_contents, move_file_or_folder, rename_file_or_folder, serve_file_download,
    upload_destination, DeleteAction, DownloadHeaders, FileError, MoveStep};
pub use images::{convert_github_image_url, process_github_html_images, process_github_images};
pub use markdown::{readme_from_payload, render_markdown, render_readme, ReadmeError};
pub use models::{ApiResponse, AppConfig, AuthUser, CachedContent, CachedGithubProject, Claims,
    ContentItem, ContentMetadata, DirectoryContents, FileContentRequest, FileItem,
    FileMoveRequest, FileOperationRequest, FileRenameRequest, GitHubConfig, GitHubProject,
    GitHubRepo, LoginRequest, LoginResponse};
pub use paths::{content_path_candidate, create_safe_content_path, create_safe_file_path,
    file_path_candidate, lies_within};
pub use projects::{cached_project, degrade_project, fetch_github_project, overlay_config,
    project_cache_key, readme_api_url, record_fetch, repository_api_url, settle_project,
    settle_projects, store_project, FetchError, RepoMetadata};
pub use validation::{validate_category, validate_slug, FaultKind, ValidationError};
