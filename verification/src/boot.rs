//! The boot sequence as a step machine: the decisions between the
//! launcher's outside steps — reading the config, prompting, template
//! file I/O, running the external tool — are one verified function from
//! state and event to the next state and action. The shell around the
//! library performs each action and hands the outcome back as the next
//! event.
//!
//! The central guarantee is scoped acquisition of the template file:
//! once the bound content is on disk (state `Running`), every event
//! leads to the restore steps, whether the session succeeded, failed, or
//! could not be spawned at all.

use vstd::prelude::*;

use crate::binder::bind_content;
use crate::binder::bound;
use crate::binder::unbind_content;
use crate::binder::unbound;
use crate::config::config_match_at;
use crate::config::parse_config;
use crate::config::parses_to;
use crate::errors::LaunchError;
use crate::paths::config_file_path;
use crate::paths::default_flake_name;
use crate::paths::flake_file_name;
use crate::paths::flake_file_path;
use crate::paths::flakes_root;
use crate::paths::path_join;
use crate::resolve::flake_location;
use crate::resolve::known_has;
use crate::subst::bytes_eq;
use crate::subst::copy_bytes;

verus! {

/// Where the boot sequence stands; each state carries what the later
/// steps still need.
pub enum BootState {
    /// Nothing has happened yet: the config must be read.
    Start { home: Vec<u8> },
    /// The projects root is known; the user must choose a project.
    Choosing { home: Vec<u8>, root: Vec<u8> },
    /// A project was chosen; its template file must be read.
    Reading { dir: Vec<u8>, proj: Vec<u8>, root: Vec<u8> },
    /// The bound content is on disk and the session runs; afterwards the
    /// file must be read back for restoration.
    Running { dir: Vec<u8>, proj: Vec<u8>, root: Vec<u8> },
    /// The session is over; the file's content must be unbound.
    Restoring { dir: Vec<u8>, proj: Vec<u8>, root: Vec<u8> },
    /// The boot sequence ended.
    Finished,
}

/// What the outside world reports back to the machine.
pub enum BootEvent {
    /// The config file's content, or `None` if the file is absent.
    ConfigContent { content: Option<Vec<u8>> },
    /// The user's choice, or `None` if the prompt was dismissed.
    Choice { name: Option<Vec<u8>> },
    /// A template file's content, or `None` if it could not be read.
    TemplateContent { content: Option<Vec<u8>> },
    /// The session ended; `ran` is false if the tool could not be
    /// spawned.
    SessionEnded { ran: bool },
}

/// What the shell must do next.
pub enum BootAction {
    /// Read the config file at the given path.
    ReadConfig { path: Vec<u8> },
    /// List the given projects root and prompt for a project.
    Prompt { root: Vec<u8> },
    /// Read the template file; `fallback` says the shared fallback
    /// template was resolved, so the notice is shown, once.
    ReadTemplate { file: Vec<u8>, fallback: bool },
    /// Write `content` to `file`, then run the external tool on `dir`,
    /// relaying its output line by line.
    WriteAndRun { file: Vec<u8>, content: Vec<u8>, dir: Vec<u8> },
    /// Read the template file back for restoration.
    ReadBack { file: Vec<u8> },
    /// Write the restored `content` to `file`.
    WriteRestored { file: Vec<u8>, content: Vec<u8> },
    /// Stop quietly: nothing was chosen.
    Stop,
    /// Stop with the given failure.
    Fail { err: LaunchError },
}

/// The menu entry `-- other projects --` that separates the known names
/// from the discovered ones.
pub open spec fn separator_text() -> Seq<u8> {
    seq![
        45u8, 45u8, 32u8, 111u8, 116u8, 104u8, 101u8, 114u8, 32u8, 112u8, 114u8, 111u8, 106u8,
        101u8, 99u8, 116u8, 115u8, 32u8, 45u8, 45u8,
    ]
}

/// A choice that ends the boot quietly: an empty entry or the separator.
pub open spec fn is_exit(name: Seq<u8>) -> bool {
    name.len() == 0 || name == separator_text()
}

/// Whether the chosen menu entry ends the boot quietly.
pub fn is_exit_choice(name: &Vec<u8>) -> (r: bool)
    ensures
        r == is_exit(name@),
{
    if name.len() == 0 {
        return true;
    }
    let sep: Vec<u8> = vec![
        45u8, 45u8, 32u8, 111u8, 116u8, 104u8, 101u8, 114u8, 32u8, 112u8, 114u8, 111u8, 106u8,
        101u8, 99u8, 116u8, 115u8, 32u8, 45u8, 45u8,
    ];
    proof {
        assert(sep@ =~= separator_text());
    }
    bytes_eq(name, &sep)
}

/// The template directory that serves project `n`: dedicated when known,
/// the shared fallback otherwise.
pub open spec fn resolved_dir(known: Seq<Vec<u8>>, n: Seq<u8>, home: Seq<u8>) -> Seq<u8> {
    if known_has(known, n) {
        path_join(flakes_root(home), n)
    } else {
        path_join(flakes_root(home), default_flake_name())
    }
}

/// States past configuration carry a nonempty project name and projects
/// root, so that restoration can always replace them back.
pub open spec fn wf_state(s: BootState) -> bool {
    match s {
        BootState::Start { .. } => true,
        BootState::Choosing { root, .. } => root@.len() > 0,
        BootState::Reading { proj, root, .. } => proj@.len() > 0 && root@.len() > 0,
        BootState::Running { proj, root, .. } => proj@.len() > 0 && root@.len() > 0,
        BootState::Restoring { proj, root, .. } => proj@.len() > 0 && root@.len() > 0,
        BootState::Finished => true,
    }
}

/// Which event a state waits for. A running session accepts any event:
/// whatever happens, the machine moves on to restoration.
pub open spec fn fits(s: BootState, e: BootEvent) -> bool {
    match s {
        BootState::Start { .. } => e matches BootEvent::ConfigContent { .. },
        BootState::Choosing { .. } => e matches BootEvent::Choice { .. },
        BootState::Reading { .. } => e matches BootEvent::TemplateContent { .. },
        BootState::Running { .. } => true,
        BootState::Restoring { .. } => e matches BootEvent::TemplateContent { .. },
        BootState::Finished => false,
    }
}

/// The action that starts a boot: read the config file under `home`.
pub fn boot_start_action(home: &Vec<u8>) -> (r: BootAction)
    ensures
        r matches BootAction::ReadConfig { path } && path@ == path_join(
            home@,
            crate::paths::config_file_name(),
        ),
{
    BootAction::ReadConfig { path: config_file_path(home) }
}

/// One step of the boot sequence: from the current state and the event
/// the outside world reported, the next state and the next action.
pub fn boot_step(state: BootState, event: BootEvent, known: &Vec<Vec<u8>>) -> (r: (
    BootState,
    BootAction,
))
    requires
        wf_state(state),
        fits(state, event),
    ensures
        wf_state(r.0),
        (state matches BootState::Running { dir, proj, root } ==> (r.0 matches
            BootState::Restoring { dir: d2, proj: p2, root: rt2 } && d2@ == dir@ && p2@ == proj@
            && rt2@ == root@ && (r.1 matches BootAction::ReadBack { file } && file@ == path_join(
            dir@,
            flake_file_name(),
        )))),
        state matches BootState::Start { home } ==> (event matches BootEvent::ConfigContent {
            content,
        } ==> match content {
            None => r.0 matches BootState::Finished && (r.1 matches BootAction::Fail { err }
                && err == LaunchError::NotConfigured),
            Some(t) => ((exists|i: int| config_match_at(t@, i)) ==> (r.0 matches
                BootState::Choosing { home: h2, root } && h2@ == home@ && parses_to(t@, root@)
                && (r.1 matches BootAction::Prompt { root: rt } && rt@ == root@))) && ((!(exists|
                i: int,
            | config_match_at(t@, i))) ==> (r.0 matches BootState::Finished && (r.1 matches
                BootAction::Fail { err } && err == LaunchError::Corrupt))),
        }),
        state matches BootState::Choosing { home, root } ==> (event matches BootEvent::Choice {
            name,
        } ==> match name {
            None => r.0 matches BootState::Finished && (r.1 matches BootAction::Stop),
            Some(n) => if is_exit(n@) {
                r.0 matches BootState::Finished && (r.1 matches BootAction::Stop)
            } else {
                r.0 matches BootState::Reading { dir, proj, root: rt2 } && dir@ == resolved_dir(
                    known@,
                    n@,
                    home@,
                ) && proj@ == n@ && rt2@ == root@ && (r.1 matches BootAction::ReadTemplate {
                    file,
                    fallback,
                } && file@ == path_join(resolved_dir(known@, n@, home@), flake_file_name())
                    && fallback == !known_has(known@, n@))
            },
        }),
        state matches BootState::Reading { dir, proj, root } ==> (event matches
            BootEvent::TemplateContent { content } ==> match content {
            None => r.0 matches BootState::Finished && (r.1 matches BootAction::Fail { err }
                && err == LaunchError::TemplateUnreadable),
            Some(c) => r.0 matches BootState::Running { dir: d2, proj: p2, root: rt2 } && d2@
                == dir@ && p2@ == proj@ && rt2@ == root@ && (r.1 matches BootAction::WriteAndRun {
                file,
                content: b,
                dir: d3,
            } && file@ == path_join(dir@, flake_file_name()) && b@ == bound(c@, proj@, root@)
                && d3@ == dir@),
        }),
        state matches BootState::Restoring { dir, proj, root } ==> (event matches
            BootEvent::TemplateContent { content } ==> match content {
            None => r.0 matches BootState::Finished && (r.1 matches BootAction::Fail { err }
                && err == LaunchError::TemplateUnreadable),
            Some(c) => r.0 matches BootState::Finished && (r.1 matches BootAction::WriteRestored {
                file,
                content: u,
            } && file@ == path_join(dir@, flake_file_name()) && u@ == unbound(c@, proj@, root@)),
        }),
{
    match state {
        BootState::Start { home } => {
            let content = if let BootEvent::ConfigContent { content } = event {
                content
            } else {
                None
            };
            match parse_config(content.as_ref()) {
                Ok(root) => {
                    proof {
                        let t = content.unwrap();
                        let i = choose|i: int|
                            {
                                &&& #[trigger] config_match_at(t@, i)
                                &&& root@ == crate::config::config_value(t@, i)
                                &&& forall|h: int| 0 <= h < i ==> !config_match_at(t@, h)
                            };
                        assert(root@.len() > 0);
                    }
                    let prompt_root = copy_bytes(&root);
                    (
                        BootState::Choosing { home, root },
                        BootAction::Prompt { root: prompt_root },
                    )
                },
                Err(err) => (BootState::Finished, BootAction::Fail { err }),
            }
        },
        BootState::Choosing { home, root } => {
            let name = if let BootEvent::Choice { name } = event {
                name
            } else {
                None
            };
            match name {
                None => (BootState::Finished, BootAction::Stop),
                Some(n) => {
                    if is_exit_choice(&n) {
                        (BootState::Finished, BootAction::Stop)
                    } else {
                        let (dir, fallback) = flake_location(&n, known, &home);
                        let file = flake_file_path(&dir);
                        proof {
                            if n@.len() == 0 {
                                assert(is_exit(n@));
                            }
                        }
                        (
                            BootState::Reading { dir, proj: n, root },
                            BootAction::ReadTemplate { file, fallback },
                        )
                    }
                },
            }
        },
        BootState::Reading { dir, proj, root } => {
            let content = if let BootEvent::TemplateContent { content } = event {
                content
            } else {
                None
            };
            match content {
                None => (
                    BootState::Finished,
                    BootAction::Fail { err: LaunchError::TemplateUnreadable },
                ),
                Some(c) => {
                    let b = bind_content(&c, &proj, &root);
                    let file = flake_file_path(&dir);
                    let run_dir = copy_bytes(&dir);
                    (
                        BootState::Running { dir, proj, root },
                        BootAction::WriteAndRun { file, content: b, dir: run_dir },
                    )
                },
            }
        },
        BootState::Running { dir, proj, root } => {
            let file = flake_file_path(&dir);
            (BootState::Restoring { dir, proj, root }, BootAction::ReadBack { file })
        },
        BootState::Restoring { dir, proj, root } => {
            let content = if let BootEvent::TemplateContent { content } = event {
                content
            } else {
                None
            };
            match content {
                None => (
                    BootState::Finished,
                    BootAction::Fail { err: LaunchError::TemplateUnreadable },
                ),
                Some(c) => {
                    let u = unbind_content(&c, &proj, &root);
                    let file = flake_file_path(&dir);
                    (
                        BootState::Finished,
                        BootAction::WriteRestored { file, content: u },
                    )
                },
            }
        },
        BootState::Finished => (BootState::Finished, BootAction::Stop),
    }
}

} // verus!
