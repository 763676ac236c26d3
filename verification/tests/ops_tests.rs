use pack::error::Error;
use pack::git::{github_url, install_action, update_action, InstallAction, UpdateAction};
use pack::ops::{
    apply_failures, classify_update, clone_task, config_outcome, contains_name, find_by_name,
    help_index_action, list_filter, merge_at, recategorize_at, remove_names, select_for_update,
    select_to_uninstall, str_contains_sub, ConfigAction, HelpIndexAction,
};
use pack::task::{Task, TaskReport};
use pack::utils::spinner_frame;

fn task(name: &str) -> Task {
    Task::new(String::from(name), String::from("start"), false)
}

#[test]
fn test_classify_update_keeps_success_and_local_skip_only() {
    let (r, keep) = classify_update(Ok(()));
    assert!(r.is_ok());
    assert!(keep);
    let (r, keep) = classify_update(Err(Error::SkipLocal));
    assert!(matches!(r, Err(Error::SkipLocal)));
    assert!(keep);
    // a transient remote failure removes the task from the persisted set
    let (r, keep) = classify_update(Err(Error::Git(String::from("network"))));
    assert!(matches!(r, Err(Error::Git(_))));
    assert!(!keep);
    let (r, keep) = classify_update(Err(Error::PluginNotInstalled));
    assert!(matches!(r, Err(Error::PluginNotInstalled)));
    assert!(!keep);
    let (_, keep) = classify_update(Err(Error::Build(String::from("make"))));
    assert!(!keep);
}

#[test]
fn test_update_action_decisions() {
    assert!(matches!(update_action(false, false), UpdateAction::NotInstalled));
    assert!(matches!(update_action(false, true), UpdateAction::NotInstalled));
    assert!(matches!(update_action(true, true), UpdateAction::SkipLocal));
    assert!(matches!(update_action(true, false), UpdateAction::Sync));
}

#[test]
fn test_install_action_decisions() {
    assert!(matches!(install_action(true, false, false), InstallAction::AlreadyInstalled));
    assert!(matches!(install_action(true, true, true), InstallAction::AlreadyInstalled));
    assert!(matches!(install_action(false, true, false), InstallAction::MissingSource));
    assert!(matches!(install_action(false, true, true), InstallAction::Link));
    assert!(matches!(install_action(false, false, true), InstallAction::Clone));
}

#[test]
fn test_github_url_formats_location_and_name() {
    assert_eq!(github_url("owner/repo"), "https://github.com/owner/repo");
    assert_eq!(github_url(""), "https://github.com/");
}

#[test]
fn test_error_constructor_messages() {
    match Error::copy_dir("missing") {
        Error::CopyDir(m) => assert_eq!(m, "Fail to copy directory: missing"),
        _ => panic!("wrong variant"),
    }
    match Error::build("make all") {
        Error::Build(m) => assert_eq!(m, "Fail to build plugin: make all"),
        _ => panic!("wrong variant"),
    }
    match Error::plugin_installed("/tmp/p") {
        Error::PluginInstalled(m) => assert_eq!(m, "Plugin already installed under /tmp/p"),
        _ => panic!("wrong variant"),
    }
}

#[test]
fn test_error_descriptions() {
    assert_eq!(Error::Format.description(), "Invalid format");
    assert_eq!(Error::SaveYaml.description(), "Fail to save packfile");
    assert_eq!(Error::LoadYaml.description(), "Fail to load packfile");
    assert_eq!(Error::Editor.description(), "Can not open editor");
    assert_eq!(Error::PluginNotInstalled.description(), "Plugin not installed");
    assert_eq!(Error::NoPlugin.description(), "Can not find such plugin");
    assert_eq!(Error::SkipLocal.description(), "Local plugin. Skipping");
    assert_eq!(Error::Git(String::from("boom")).description(), "boom");
    assert_eq!(Error::Io(String::from("io gone")).description(), "io gone");
}

#[test]
fn test_str_contains_sub() {
    assert!(str_contains_sub("abcdef", "cde"));
    assert!(str_contains_sub("abcdef", ""));
    assert!(str_contains_sub("abcdef", "abcdef"));
    assert!(!str_contains_sub("abcdef", "abcdefg"));
    assert!(!str_contains_sub("abcdef", "ca"));
    assert!(str_contains_sub("vim-airline", "air"));
}

#[test]
fn test_list_filter() {
    let mut t = task("a");
    t.opt = false;
    assert!(list_filter(&t, &None, false, false));
    assert!(list_filter(&t, &Some(String::from("start")), false, false));
    assert!(!list_filter(&t, &Some(String::from("colors")), false, false));
    assert!(list_filter(&t, &None, true, false));
    assert!(!list_filter(&t, &None, false, true));
    t.opt = true;
    assert!(!list_filter(&t, &None, true, false));
    assert!(list_filter(&t, &None, false, true));
}

#[test]
fn test_find_and_contains() {
    let packs = vec![task("a"), task("b"), task("a")];
    assert_eq!(find_by_name(&packs, &String::from("a")), Some(0));
    assert_eq!(find_by_name(&packs, &String::from("b")), Some(1));
    assert_eq!(find_by_name(&packs, &String::from("z")), None);
    let names = vec![String::from("x"), String::from("y")];
    assert!(contains_name(&names, &String::from("y")));
    assert!(!contains_name(&names, &String::from("z")));
}

#[test]
fn test_select_for_update_skip_and_plugin_filters() {
    let packs = vec![task("vim-airline"), task("nerdtree"), task("fzf")];
    let none: Vec<String> = Vec::new();
    let all = select_for_update(&packs, &none, &none);
    assert_eq!(all.len(), 3);
    let skipped = select_for_update(&packs, &none, &vec![String::from("air")]);
    let names: Vec<&str> = skipped.iter().map(|t| t.name.as_str()).collect();
    assert_eq!(names, vec!["nerdtree", "fzf"]);
    let only = select_for_update(&packs, &vec![String::from("fzf")], &none);
    let names: Vec<&str> = only.iter().map(|t| t.name.as_str()).collect();
    assert_eq!(names, vec!["fzf"]);
    let both = select_for_update(&packs, &vec![String::from("fzf")], &vec![String::from("fzf")]);
    assert_eq!(both.len(), 0);
}

#[test]
fn test_select_to_uninstall() {
    let packs = vec![task("a"), task("b")];
    let picked = select_to_uninstall(&packs, &vec![String::from("b"), String::from("a")]).unwrap();
    let names: Vec<&str> = picked.iter().map(|t| t.name.as_str()).collect();
    assert_eq!(names, vec!["b", "a"]);
    let missing = select_to_uninstall(&packs, &vec![String::from("a"), String::from("z")]);
    assert!(matches!(missing, Err(Error::PluginNotInstalled)));
}

#[test]
fn test_remove_names() {
    let packs = vec![task("a"), task("b"), task("c"), task("b")];
    let left = remove_names(packs, &vec![String::from("b")]);
    let names: Vec<&str> = left.iter().map(|t| t.name.as_str()).collect();
    assert_eq!(names, vec!["a", "c"]);
}

#[test]
fn test_apply_failures_undoes_only_unkept_failures() {
    let packs = vec![task("a"), task("b"), task("c")];
    let reports = vec![
        TaskReport { name: String::from("a"), failed: true, keep: false },
        TaskReport { name: String::from("b"), failed: true, keep: true },
        TaskReport { name: String::from("c"), failed: false, keep: true },
    ];
    let left = apply_failures(packs, &reports);
    let names: Vec<&str> = left.iter().map(|t| t.name.as_str()).collect();
    assert_eq!(names, vec!["b", "c"]);
}

#[test]
fn test_merge_at_appends_unknown_name() {
    let mut packs = vec![task("a")];
    let mut target = task("b");
    target.build_command = Some(String::from("make"));
    let dispatched = merge_at(&mut packs, None, false, target);
    assert_eq!(packs.len(), 2);
    assert_eq!(packs[1].name, "b");
    assert_eq!(packs[1].build_command.as_deref(), Some("make"));
    assert_eq!(dispatched.name, "b");
}

#[test]
fn test_merge_at_uninstalled_known_name_adopts_target_settings() {
    let mut old = task("a");
    old.opt = false;
    old.local = true;
    let mut packs = vec![old];
    let mut target = task("a");
    target.opt = true;
    target.category = String::from("colors");
    target.load_command = Some(String::from("cmd"));
    let dispatched = merge_at(&mut packs, Some(0), false, target);
    assert_eq!(packs.len(), 1);
    assert_eq!(packs[0].category, "colors");
    assert!(packs[0].opt);
    assert!(packs[0].local);
    assert_eq!(packs[0].load_command.as_deref(), Some("cmd"));
    assert_eq!(dispatched.category, "colors");
}

#[test]
fn test_merge_at_installed_known_name_lends_category_and_opt() {
    let mut old = task("a");
    old.opt = true;
    old.category = String::from("colors");
    let mut packs = vec![old];
    let mut target = task("a");
    target.opt = false;
    target.category = String::from("start");
    let dispatched = merge_at(&mut packs, Some(0), true, target);
    assert_eq!(packs[0].category, "colors");
    assert!(packs[0].opt);
    assert_eq!(dispatched.category, "colors");
    assert!(dispatched.opt);
}

#[test]
fn test_recategorize_at_changes_only_category_and_opt() {
    let mut t = task("a");
    t.local = true;
    t.build_command = Some(String::from("make"));
    let mut packs = vec![t, task("b")];
    recategorize_at(&mut packs, 0, String::from("colors"), true);
    assert_eq!(packs[0].name, "a");
    assert_eq!(packs[0].category, "colors");
    assert!(packs[0].opt);
    assert!(packs[0].local);
    assert_eq!(packs[0].build_command.as_deref(), Some("make"));
    assert_eq!(packs[1].name, "b");
    assert_eq!(packs[1].category, "start");
}

#[test]
fn test_clone_task_copies_every_attribute() {
    let mut t = task("a");
    t.local = true;
    t.load_command = Some(String::from("l"));
    t.build_command = Some(String::from("b"));
    t.for_types = vec![String::from("rust")];
    t.reference = Some(String::from("v1"));
    let c = clone_task(&t);
    assert_eq!(c.name, t.name);
    assert_eq!(c.category, t.category);
    assert_eq!(c.opt, t.opt);
    assert_eq!(c.local, t.local);
    assert_eq!(c.load_command, t.load_command);
    assert_eq!(c.build_command, t.build_command);
    assert_eq!(c.for_types, t.for_types);
    assert_eq!(c.reference, t.reference);
}

#[test]
fn test_config_outcome_decisions() {
    assert!(matches!(config_outcome(false, true, false), ConfigAction::RemoveOnly));
    assert!(matches!(config_outcome(true, true, false), ConfigAction::RemoveAndRegenerate));
    assert!(matches!(config_outcome(false, false, false), ConfigAction::Regenerate));
    assert!(matches!(config_outcome(true, false, true), ConfigAction::Regenerate));
    assert!(matches!(config_outcome(true, false, false), ConfigAction::Nothing));
}

#[test]
fn test_help_index_action_decisions() {
    assert!(matches!(help_index_action(true, None), HelpIndexAction::Done));
    assert!(matches!(help_index_action(false, None), HelpIndexAction::TryAlternate));
    assert!(matches!(help_index_action(false, Some(true)), HelpIndexAction::Done));
    assert!(matches!(help_index_action(false, Some(false)), HelpIndexAction::Fatal));
}

#[test]
fn test_spinner_frames_cycle() {
    assert_eq!(spinner_frame(0), '⠋');
    assert_eq!(spinner_frame(4), '⠼');
    assert_eq!(spinner_frame(8), '⠇');
    assert_eq!(spinner_frame(9), '⠏');
    assert_eq!(spinner_frame(10), '⠋');
    assert_eq!(spinner_frame(25), spinner_frame(5));
}
