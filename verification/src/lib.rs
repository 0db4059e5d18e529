//! Two verified request filters for an HTTP pipeline: a path canonicalizer
//! that strips trailing slashes and collapses repeated slashes before
//! routing, and a secure-transport enforcer that answers any plaintext
//! request with a `301` redirect to its HTTPS equivalent, rewriting the
//! target port by policy. Each filter wraps an inner handler; the
//! surrounding transport plumbing stays outside this crate.

pub mod path;
pub mod redirect;
pub mod request;
mod text;

pub use path::normalize_path;
pub use path::RemoveTrailingSlash;
pub use path::RemoveTrailingSlashMiddleware;
pub use redirect::Disposition;
pub use redirect::RedirectHttps;
pub use redirect::RedirectHttpsMiddleware;
pub use redirect::Response;
pub use request::Request;
pub use request::Uri;
