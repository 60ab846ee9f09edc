use pm::binder::{bind_content, make_dir_token, make_name_token, unbind_content};
use pm::boot::{boot_start_action, boot_step, is_exit_choice, BootAction, BootEvent, BootState};
use pm::config::{config_line, config_write_plan, expand_tilde, parse_config};
use pm::errors::LaunchError;
use pm::lister::{extra_projects, merge_projects};
use pm::paths::{
    config_file_path, default_flake_location, flake_file_path, flakes_destination_path, join_path,
    prepend_home,
};
use pm::provision::{provision_writes, Template};
use pm::resolve::{flake_location, is_known_project};
use pm::subst::{bytes_eq, copy_bytes, replace_all};

fn bv(s: &str) -> Vec<u8> {
    s.as_bytes().to_vec()
}

fn names(list: &[&str]) -> Vec<Vec<u8>> {
    let mut r: Vec<Vec<u8>> = Vec::new();
    for s in list {
        r.push(bv(s));
    }
    r
}

#[test]
fn tokens_spell_the_placeholders() {
    assert_eq!(make_name_token(), bv("__PROJECTNAME__"));
    assert_eq!(make_dir_token(), bv("__PROJECTDIR__"));
}

#[test]
fn paths_are_built_under_home() {
    let home = bv("/home/u");
    assert_eq!(prepend_home(&home, &bv(".pmrc")), bv("/home/u/.pmrc"));
    assert_eq!(config_file_path(&home), bv("/home/u/.pmrc"));
    assert_eq!(flakes_destination_path(&home), bv("/home/u/.pm/flakes"));
    assert_eq!(default_flake_location(&home), bv("/home/u/.pm/flakes/go_1_22"));
    assert_eq!(join_path(&bv("a"), &bv("b")), bv("a/b"));
    assert_eq!(flake_file_path(&bv("/x/y")), bv("/x/y/flake.nix"));
}

#[test]
fn replace_all_is_leftmost_without_overlap() {
    assert_eq!(replace_all(&bv("aaa"), &bv("aa"), &bv("b")), bv("ba"));
    assert_eq!(replace_all(&bv("xyx"), &bv("y"), &bv("yy")), bv("xyyx"));
    assert_eq!(replace_all(&bv("abc"), &bv("zz"), &bv("q")), bv("abc"));
    assert_eq!(replace_all(&bv(""), &bv("a"), &bv("b")), bv(""));
}

#[test]
fn byte_helpers_compare_and_copy() {
    assert!(bytes_eq(&bv("abc"), &bv("abc")));
    assert!(!bytes_eq(&bv("abc"), &bv("abd")));
    assert!(!bytes_eq(&bv("abc"), &bv("ab")));
    assert_eq!(copy_bytes(&bv("abc")), bv("abc"));
}

#[test]
fn resolve_known_uses_dedicated_path() {
    let known = names(&["svc1", "frontend"]);
    let home = bv("/home/u");
    let (loc, fallback) = flake_location(&bv("svc1"), &known, &home);
    assert_eq!(loc, bv("/home/u/.pm/flakes/svc1"));
    assert!(!fallback);
    assert_ne!(loc, default_flake_location(&home));
}

#[test]
fn resolve_ad_hoc_uses_fallback_and_says_so() {
    let known = names(&["svc1", "frontend"]);
    let home = bv("/home/u");
    let (loc, fallback) = flake_location(&bv("scratch"), &known, &home);
    assert_eq!(loc, bv("/home/u/.pm/flakes/go_1_22"));
    assert!(fallback);
}

#[test]
fn known_projects_are_recognized() {
    let known = names(&["svc1", "frontend"]);
    assert!(is_known_project(&known, &bv("frontend")));
    assert!(!is_known_project(&known, &bv("scratch")));
}

#[test]
fn bind_writes_name_and_root_over_the_tokens() {
    let content = bv("use __PROJECTNAME__ at __PROJECTDIR__/__PROJECTNAME__;");
    let bound = bind_content(&content, &bv("svc1"), &bv("/home/u/projects"));
    assert_eq!(bound, bv("use svc1 at /home/u/projects/svc1;"));
}

#[test]
fn unbind_after_bind_restores_the_template() {
    let content = bv("{ name = \"__PROJECTNAME__\"; dir = \"__PROJECTDIR__\"; }");
    let name = bv("scratch");
    let dir = bv("/home/u/projects");
    let bound = bind_content(&content, &name, &dir);
    let restored = unbind_content(&bound, &name, &dir);
    assert_eq!(restored, content);
}

#[test]
fn a_name_that_occurs_in_the_template_poisons_the_round_trip() {
    // Known limitation of literal substitution: a project named like text
    // already in the template is replaced back too eagerly.
    let content = bv("dev __PROJECTNAME__");
    let name = bv("dev");
    let dir = bv("/p");
    let bound = bind_content(&content, &name, &dir);
    assert_eq!(bound, bv("dev dev"));
    let restored = unbind_content(&bound, &name, &dir);
    assert_eq!(restored, bv("__PROJECTNAME__ __PROJECTNAME__"));
    assert_ne!(restored, content);
}

#[test]
fn a_name_with_a_border_poisons_the_round_trip() {
    // Known limitation: a bound name that overlaps itself across its
    // insertion point is found at the wrong place on the way back.
    let content = bv("c__PROJECTNAME__");
    let name = bv("cc");
    let dir = bv("/p");
    let bound = bind_content(&content, &name, &dir);
    assert_eq!(bound, bv("ccc"));
    let restored = unbind_content(&bound, &name, &dir);
    assert_eq!(restored, bv("__PROJECTNAME__c"));
    assert_ne!(restored, content);
}

#[test]
fn lister_merges_known_and_discovered_without_duplicates() {
    let known = names(&["svc1"]);
    let discovered = names(&["a", "b"]);
    assert_eq!(merge_projects(&known, &discovered), names(&["svc1", "a", "b"]));

    let discovered_with_known = names(&["a", "svc1", "b"]);
    assert_eq!(merge_projects(&known, &discovered_with_known), names(&["svc1", "a", "b"]));
    assert_eq!(extra_projects(&known, &discovered_with_known), names(&["a", "b"]));
}

#[test]
fn parse_config_reads_the_project_dir_line() {
    let content = bv("project_dir=/home/u/projects");
    assert_eq!(parse_config(Some(&content)), Ok(bv("/home/u/projects")));
}

#[test]
fn parse_config_takes_the_leftmost_match_to_the_end() {
    let content = bv("junk\nproject_dir=/a/b");
    assert_eq!(parse_config(Some(&content)), Ok(bv("/a/b")));
}

#[test]
fn parse_config_fails_without_the_key_pattern() {
    assert_eq!(parse_config(Some(&bv("nonsense"))), Err(LaunchError::Corrupt));
    assert_eq!(parse_config(Some(&bv("project_dir="))), Err(LaunchError::Corrupt));
    assert_eq!(parse_config(Some(&bv("project_dir=/a\nx"))), Err(LaunchError::Corrupt));
}

#[test]
fn parse_config_fails_when_the_file_is_absent() {
    assert_eq!(parse_config(None), Err(LaunchError::NotConfigured));
}

#[test]
fn config_line_round_trips_through_parse() {
    let line = config_line(&bv("/home/u/projects"));
    assert_eq!(line, bv("project_dir=/home/u/projects"));
    assert_eq!(parse_config(Some(&line)), Ok(bv("/home/u/projects")));
}

#[test]
fn tilde_expands_to_home() {
    let expanded = expand_tilde(&bv("~/projects"), &bv("/home/u"));
    assert_eq!(expanded, bv("/home/u/projects"));
    assert_eq!(expand_tilde(&bv("/abs/path"), &bv("/home/u")), bv("/abs/path"));
}

#[test]
fn config_write_plan_rejects_a_path_that_is_no_directory() {
    let home = bv("/home/u");
    assert_eq!(
        config_write_plan(&bv("/nowhere"), &home, false),
        Err(LaunchError::InvalidPath)
    );
    assert_eq!(
        config_write_plan(&bv("/home/u/projects"), &home, true),
        Ok((bv("/home/u/.pmrc"), bv("project_dir=/home/u/projects")))
    );
}

#[test]
fn provision_writes_every_template_byte_for_byte() {
    let templates = vec![
        Template { name: bv("svc1"), content: bv("{ svc1 flake }") },
        Template { name: bv("go_1_22"), content: bv("{ __PROJECTNAME__ }") },
    ];
    let writes = provision_writes(&templates, &bv("/home/u"));
    assert_eq!(writes.len(), 2);
    assert_eq!(writes[0].dir, bv("/home/u/.pm/flakes/svc1"));
    assert_eq!(writes[0].file, bv("/home/u/.pm/flakes/svc1/flake.nix"));
    assert_eq!(writes[0].content, bv("{ svc1 flake }"));
    assert_eq!(writes[1].dir, bv("/home/u/.pm/flakes/go_1_22"));
    assert_eq!(writes[1].file, bv("/home/u/.pm/flakes/go_1_22/flake.nix"));
    assert_eq!(writes[1].content, bv("{ __PROJECTNAME__ }"));
}

fn apply_writes(fs: &mut Vec<(Vec<u8>, Vec<u8>)>, writes: &[pm::provision::TemplateWrite]) {
    for w in writes {
        let mut replaced = false;
        for entry in fs.iter_mut() {
            if entry.0 == w.file {
                entry.1 = w.content.clone();
                replaced = true;
            }
        }
        if !replaced {
            fs.push((w.file.clone(), w.content.clone()));
        }
    }
}

#[test]
fn provisioning_twice_leaves_the_destination_identical() {
    let templates = vec![
        Template { name: bv("svc1"), content: bv("{ svc1 flake }") },
        Template { name: bv("go_1_22"), content: bv("{ generic }") },
    ];
    let writes = provision_writes(&templates, &bv("/home/u"));
    let mut fs_once: Vec<(Vec<u8>, Vec<u8>)> = vec![(bv("/etc/hosts"), bv("untouched"))];
    apply_writes(&mut fs_once, &writes);
    let mut fs_twice = fs_once.clone();
    apply_writes(&mut fs_twice, &writes);
    assert_eq!(fs_once, fs_twice);
}

#[test]
fn exit_choices_end_the_menu() {
    assert!(is_exit_choice(&bv("")));
    assert!(is_exit_choice(&bv("-- other projects --")));
    assert!(!is_exit_choice(&bv("svc1")));
}

#[test]
fn boot_without_config_fails_and_writes_nothing() {
    let known = names(&["svc1"]);
    let start = boot_start_action(&bv("/home/u"));
    match start {
        BootAction::ReadConfig { path } => assert_eq!(path, bv("/home/u/.pmrc")),
        _ => panic!("boot must begin by reading the config"),
    }
    let state = BootState::Start { home: bv("/home/u") };
    let (next, action) = boot_step(state, BootEvent::ConfigContent { content: None }, &known);
    assert!(matches!(next, BootState::Finished));
    match action {
        BootAction::Fail { err } => assert_eq!(err, LaunchError::NotConfigured),
        _ => panic!("an unset config must fail the boot, not touch the filesystem"),
    }
}

#[test]
fn boot_with_corrupt_config_fails() {
    let known = names(&["svc1"]);
    let state = BootState::Start { home: bv("/home/u") };
    let (next, action) =
        boot_step(state, BootEvent::ConfigContent { content: Some(bv("garbage")) }, &known);
    assert!(matches!(next, BootState::Finished));
    match action {
        BootAction::Fail { err } => assert_eq!(err, LaunchError::Corrupt),
        _ => panic!("a corrupt config must fail the boot"),
    }
}

#[test]
fn booting_a_known_project_binds_and_restores_its_own_template() {
    let known = names(&["svc1"]);
    let home = bv("/home/u");
    let template = bv("{ p = \"__PROJECTNAME__\"; d = \"__PROJECTDIR__\"; }");
    let fallback_file = flake_file_path(&default_flake_location(&home));

    let config = config_line(&bv("/home/u/projects"));
    let (state, action) = boot_step(
        BootState::Start { home },
        BootEvent::ConfigContent { content: Some(config) },
        &known,
    );
    match &action {
        BootAction::Prompt { root } => assert_eq!(*root, bv("/home/u/projects")),
        _ => panic!("a configured boot must prompt"),
    }

    let (state, action) =
        boot_step(state, BootEvent::Choice { name: Some(bv("svc1")) }, &known);
    let template_file = match &action {
        BootAction::ReadTemplate { file, fallback } => {
            assert_eq!(*file, bv("/home/u/.pm/flakes/svc1/flake.nix"));
            assert_ne!(*file, fallback_file);
            assert!(!*fallback);
            file.clone()
        }
        _ => panic!("a chosen project must have its template read"),
    };

    let (state, action) = boot_step(
        state,
        BootEvent::TemplateContent { content: Some(template.clone()) },
        &known,
    );
    let bound = match action {
        BootAction::WriteAndRun { file, content, dir } => {
            assert_eq!(file, template_file);
            assert_ne!(file, fallback_file);
            assert_eq!(dir, bv("/home/u/.pm/flakes/svc1"));
            assert_eq!(content, bv("{ p = \"svc1\"; d = \"/home/u/projects\"; }"));
            content
        }
        _ => panic!("a read template must be bound and run"),
    };

    let (state, action) = boot_step(state, BootEvent::SessionEnded { ran: true }, &known);
    match &action {
        BootAction::ReadBack { file } => assert_eq!(*file, template_file),
        _ => panic!("after the session the template must be read back"),
    }

    let (state, action) =
        boot_step(state, BootEvent::TemplateContent { content: Some(bound) }, &known);
    assert!(matches!(state, BootState::Finished));
    match action {
        BootAction::WriteRestored { file, content } => {
            assert_eq!(file, template_file);
            assert_ne!(file, fallback_file);
            assert_eq!(content, template);
        }
        _ => panic!("the template must be restored to placeholder form"),
    }
}

#[test]
fn booting_an_ad_hoc_project_restores_the_fallback_exactly() {
    let known = names(&["svc1"]);
    let home = bv("/home/u");
    let placeholder = bv("{ p = __PROJECTNAME__; d = __PROJECTDIR__; }");

    let (state, _) = boot_step(
        BootState::Start { home },
        BootEvent::ConfigContent { content: Some(config_line(&bv("/home/u/projects"))) },
        &known,
    );
    let (state, action) =
        boot_step(state, BootEvent::Choice { name: Some(bv("scratch")) }, &known);
    match &action {
        BootAction::ReadTemplate { file, fallback } => {
            assert_eq!(*file, bv("/home/u/.pm/flakes/go_1_22/flake.nix"));
            assert!(*fallback);
        }
        _ => panic!("an ad hoc project must use the fallback template"),
    }
    let (state, action) = boot_step(
        state,
        BootEvent::TemplateContent { content: Some(placeholder.clone()) },
        &known,
    );
    let bound = match action {
        BootAction::WriteAndRun { content, .. } => {
            assert_eq!(content, bv("{ p = scratch; d = /home/u/projects; }"));
            content
        }
        _ => panic!("the fallback must be bound"),
    };
    // Even a session that could not be spawned still reaches restoration.
    let (state, action) = boot_step(state, BootEvent::SessionEnded { ran: false }, &known);
    assert!(matches!(action, BootAction::ReadBack { .. }));
    let (_, action) =
        boot_step(state, BootEvent::TemplateContent { content: Some(bound) }, &known);
    match action {
        BootAction::WriteRestored { content, .. } => assert_eq!(content, placeholder),
        _ => panic!("the fallback must return to placeholder form"),
    }
}

#[test]
fn a_dismissed_prompt_ends_the_boot_quietly() {
    let known = names(&["svc1"]);
    let (state, _) = boot_step(
        BootState::Start { home: bv("/home/u") },
        BootEvent::ConfigContent { content: Some(config_line(&bv("/r"))) },
        &known,
    );
    let (state, action) = boot_step(state, BootEvent::Choice { name: None }, &known);
    assert!(matches!(state, BootState::Finished));
    assert!(matches!(action, BootAction::Stop));
}

#[test]
fn an_unreadable_template_aborts_before_binding() {
    let known = names(&["svc1"]);
    let (state, _) = boot_step(
        BootState::Start { home: bv("/home/u") },
        BootEvent::ConfigContent { content: Some(config_line(&bv("/r"))) },
        &known,
    );
    let (state, _) = boot_step(state, BootEvent::Choice { name: Some(bv("svc1")) }, &known);
    let (state, action) =
        boot_step(state, BootEvent::TemplateContent { content: None }, &known);
    assert!(matches!(state, BootState::Finished));
    match action {
        BootAction::Fail { err } => assert_eq!(err, LaunchError::TemplateUnreadable),
        _ => panic!("an unreadable template is fatal"),
    }
}
