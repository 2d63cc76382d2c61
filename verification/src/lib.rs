//! Error-code registries, template rendering with a bounded template cache,
//! positional `{}` templates, the rules for declaring error enums, and the
//! lifecycle of an application's components.

pub mod cache;
pub mod codes;
pub mod err;
pub mod error;
pub mod jinja;
pub mod json;
pub mod lifecycle;
pub mod positional;
pub mod template;
pub mod template_error;
pub mod text;

pub use error::{BaseFmtErrs, BaseRawErrs, ErrRegistration, ErrRegistrationKind, FmtErr, RawErr};
pub use template::{format_positional, format_template_cached, format_template_once, TemplateEngine};
pub use template_error::{ErrorKind, TemplateError};
