//! A developer-environment launcher library.
//!
//! The tool lets a developer pick a project, resolves which
//! environment-definition template serves it, parameterizes that
//! template for one session of an external environment tool, and
//! restores it afterwards. The library holds the verified logic; a thin
//! shell around it does the prompting, the file I/O and the process
//! spawning.
//!
//! - [`subst`] — literal leftmost substring replacement over bytes, with
//!   its round-trip lemmas: the heart of the template protocol.
//! - [`binder`] — the placeholder tokens, binding and unbinding of
//!   template content, and the law that unbinding restores it.
//! - [`resolve`] — which template directory serves a chosen project:
//!   dedicated or shared fallback.
//! - [`config`] — the one-line `project_dir=` config: parsing and
//!   producing it.
//! - [`lister`] — the menu: known names merged with the names discovered
//!   under the projects root, without duplicates.
//! - [`provision`] — the files a `setup` run writes, and the law that a
//!   second run changes nothing.
//! - [`boot`] — the boot sequence as a step machine; once a template is
//!   bound on disk, every path leads to its restoration.
//! - [`paths`] — the per-user paths, as UTF-8 byte strings.
//! - [`errors`] — the failure taxonomy.

pub mod binder;
pub mod boot;
pub mod config;
pub mod errors;
pub mod lister;
pub mod paths;
pub mod provision;
pub mod resolve;
pub mod subst;
