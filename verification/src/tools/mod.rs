//! Tools and how they are invoked.
pub mod echo;
pub mod external;
pub mod github;
pub mod pipe;
pub mod validate;

pub use echo::EchoTool;
pub use external::ExternalTool;
pub use github::GitHubTool;
pub use validate::validate_input;
