use swaywsr::collect::{collect_classes, get_class, get_classes, get_window_nodes, get_workspaces};
use swaywsr::config::Config;
use swaywsr::node::{LayoutNode, LookupError, NodeKind, WindowProperties};
use swaywsr::synth::{first_token, join_labels, rename_command, synthesize};
use swaywsr::update::{
    handle_window_event, handle_workspace_event, update_tree, Reaction, WindowChange,
    WorkspaceChange,
};

fn window(app_id: &str) -> LayoutNode {
    LayoutNode::new(NodeKind::Container, None, Some(app_id.to_string()))
}

fn x_window(class: Option<&str>) -> LayoutNode {
    let mut node = LayoutNode::new(NodeKind::Container, None, None);
    node.window_properties = Some(WindowProperties { class: class.map(|c| c.to_string()) });
    node
}

fn container(children: Vec<LayoutNode>) -> LayoutNode {
    let mut node = LayoutNode::new(NodeKind::Container, None, None);
    node.nodes = children;
    node
}

fn workspace(name: Option<&str>, tiled: Vec<LayoutNode>, floating: Vec<LayoutNode>) -> LayoutNode {
    let mut node = LayoutNode::new(NodeKind::Workspace, name.map(|n| n.to_string()), None);
    node.nodes = tiled;
    node.floating_nodes = floating;
    node
}

fn output(workspaces: Vec<LayoutNode>) -> LayoutNode {
    let mut node = LayoutNode::new(NodeKind::Output, Some("eDP-1".to_string()), None);
    node.nodes = workspaces;
    node
}

fn root(outputs: Vec<LayoutNode>) -> LayoutNode {
    let mut node = LayoutNode::new(NodeKind::Root, Some("root".to_string()), None);
    node.nodes = outputs;
    node
}

fn icon_config() -> Config {
    let mut config = Config::default();
    config.set_icon("firefox", '🌐');
    config.set_icon("kitty", '⌨');
    config
}

fn strings(items: &[&str]) -> Vec<String> {
    items.iter().map(|s| s.to_string()).collect()
}

#[test]
fn one_window_is_appended_to_the_name() {
    let tree = root(vec![output(vec![workspace(Some("1"), vec![window("firefox")], vec![])])]);
    let plan = update_tree(&tree, &Config::default());
    assert_eq!(plan.failure, None);
    assert_eq!(plan.commands, vec!["rename workspace \"1\" to \"1 firefox\"".to_string()]);
}

#[test]
fn old_label_is_replaced_by_icons_and_names() {
    let ws = workspace(Some("2 old_label"), vec![window("firefox"), window("kitty")], vec![]);
    let config = icon_config();
    let labels = get_classes(&ws, &config);
    let (old_name, new_name) = synthesize(&ws, labels, &config).unwrap();
    assert_eq!(old_name, "2 old_label");
    assert_eq!(new_name, "2 🌐 firefox | ⌨ kitty");
}

#[test]
fn icons_alone_without_names() {
    let ws = workspace(Some("2 old_label"), vec![window("firefox"), window("kitty")], vec![]);
    let mut config = icon_config();
    config.set_option("no_names", true);
    let labels = get_classes(&ws, &config);
    let (_, new_name) = synthesize(&ws, labels, &config).unwrap();
    assert_eq!(new_name, "2 🌐 | ⌨");
}

#[test]
fn equal_windows_collapse_to_one_label() {
    let ws = workspace(Some("3"), vec![window("firefox"), window("firefox")], vec![]);
    let mut config = Config::default();
    let labels = get_classes(&ws, &config);
    assert_eq!(labels, strings(&["firefox", "firefox"]));
    let (_, kept) = synthesize(&ws, labels.clone(), &config).unwrap();
    assert_eq!(kept, "3 firefox | firefox");
    config.set_option("remove_duplicates", true);
    let (_, new_name) = synthesize(&ws, labels, &config).unwrap();
    assert_eq!(new_name, "3 firefox");
}

#[test]
fn workspace_without_name_is_reported() {
    let tree = root(vec![output(vec![workspace(None, vec![window("firefox")], vec![])])]);
    let plan = update_tree(&tree, &Config::default());
    assert_eq!(plan.failure, Some(LookupError::WorkspaceName));
    assert!(plan.commands.is_empty());
    let ws = workspace(None, vec![], vec![]);
    assert_eq!(synthesize(&ws, vec![], &Config::default()), Err(LookupError::WorkspaceName));
}

#[test]
fn update_stops_at_the_first_unnamed_workspace() {
    let tree = root(vec![output(vec![
        workspace(Some("1"), vec![window("a")], vec![]),
        workspace(None, vec![window("b")], vec![]),
        workspace(Some("3"), vec![window("c")], vec![]),
    ])]);
    let plan = update_tree(&tree, &Config::default());
    assert_eq!(plan.commands, vec!["rename workspace \"1\" to \"1 a\"".to_string()]);
    assert_eq!(plan.failure, Some(LookupError::WorkspaceName));
}

#[test]
fn duplicates_keep_their_first_place() {
    let ws = workspace(Some("4"), vec![], vec![]);
    let mut config = Config::default();
    config.set_option("remove_duplicates", true);
    let labels = strings(&["c", "a", "c", "b", "a", "c"]);
    let (_, new_name) = synthesize(&ws, labels, &config).unwrap();
    assert_eq!(new_name, "4 c | a | b");
}

#[test]
fn leading_token_is_kept() {
    let config = Config::default();
    for name in ["1", "2 old_label", "10: web  extra", "name"] {
        let ws = workspace(Some(name), vec![window("kitty")], vec![]);
        let labels = get_classes(&ws, &config);
        let (old_name, new_name) = synthesize(&ws, labels, &config).unwrap();
        assert_eq!(old_name.split(' ').next(), new_name.split(' ').next());
    }
    assert_eq!(first_token("2 old_label"), "2");
    assert_eq!(first_token("10:web"), "10:web");
    assert_eq!(first_token(""), "");
    assert_eq!(first_token(" x"), "");
    assert_eq!(first_token("é🌐 b"), "é🌐");
}

#[test]
fn empty_workspace_keeps_only_its_token() {
    let config = Config::default();
    let ws = workspace(Some("5 kitty | firefox"), vec![], vec![]);
    let labels = get_classes(&ws, &config);
    assert!(labels.is_empty());
    let (old_name, new_name) = synthesize(&ws, labels, &config).unwrap();
    assert_eq!(old_name, "5 kitty | firefox");
    assert_eq!(new_name, "5");
}

#[test]
fn empty_labels_add_nothing() {
    let config = Config::default();
    let ws = workspace(Some("6"), vec![], vec![]);
    let (_, new_name) = synthesize(&ws, strings(&[""]), &config).unwrap();
    assert_eq!(new_name, "6");
    let (_, two) = synthesize(&ws, strings(&["", ""]), &config).unwrap();
    assert_eq!(two, "6  | ");
}

#[test]
fn configured_separator_is_used() {
    let mut config = Config::default();
    config.set_general("separator", ", ");
    let ws = workspace(Some("7"), vec![window("a"), window("b"), window("c")], vec![]);
    let labels = get_classes(&ws, &config);
    let (_, new_name) = synthesize(&ws, labels, &config).unwrap();
    assert_eq!(new_name, "7 a, b, c");
    assert_eq!(join_labels(&strings(&["a", "b"]), "-"), "a-b");
    assert_eq!(join_labels(&strings(&["a"]), "-"), "a");
    assert_eq!(join_labels(&strings(&[]), "-"), "");
}

#[test]
fn second_update_sends_nothing() {
    let config = icon_config();
    let tree = root(vec![output(vec![
        workspace(Some("1"), vec![window("firefox")], vec![window("kitty")]),
        workspace(Some("2 x"), vec![], vec![]),
    ])]);
    let plan = update_tree(&tree, &config);
    assert_eq!(
        plan.commands,
        vec![
            "rename workspace \"1\" to \"1 🌐 firefox | ⌨ kitty\"".to_string(),
            "rename workspace \"2 x\" to \"2\"".to_string(),
        ]
    );
    let renamed = root(vec![output(vec![
        workspace(Some("1 🌐 firefox | ⌨ kitty"), vec![window("firefox")], vec![window("kitty")]),
        workspace(Some("2"), vec![], vec![]),
    ])]);
    let again = update_tree(&renamed, &config);
    assert!(again.commands.is_empty());
    assert_eq!(again.failure, None);
}

#[test]
fn floating_windows_come_after_tiled_ones() {
    let ws = workspace(
        Some("1"),
        vec![window("tiled")],
        vec![window("floating"), x_window(Some("Xterm"))],
    );
    let labels = get_classes(&ws, &Config::default());
    assert_eq!(labels, strings(&["tiled", "floating", "Xterm"]));
}

#[test]
fn nested_windows_are_found_in_walking_order() {
    let ws = workspace(
        Some("1"),
        vec![
            container(vec![window("a1"), container(vec![window("deep")]), window("a2")]),
            window("top"),
            container(vec![window("b1")]),
        ],
        vec![],
    );
    let labels = get_classes(&ws, &Config::default());
    assert_eq!(labels, strings(&["top", "b1", "a1", "a2", "deep"]));
}

#[test]
fn children_of_a_window_are_still_visited() {
    let mut outer = window("outer");
    outer.nodes = vec![window("inner")];
    let ws = workspace(Some("1"), vec![outer], vec![]);
    assert_eq!(get_classes(&ws, &Config::default()), strings(&["outer", "inner"]));
}

#[test]
fn nodes_without_class_are_passed_over() {
    let ws = workspace(
        Some("1"),
        vec![x_window(None), window("kitty"), container(vec![]), x_window(Some("Gimp"))],
        vec![],
    );
    assert_eq!(get_classes(&ws, &Config::default()), strings(&["kitty", "Gimp"]));
}

#[test]
fn class_prefers_the_application_id() {
    let config = Config::default();
    let mut node = x_window(Some("XClass"));
    assert_eq!(get_class(&node, &config), Ok("XClass".to_string()));
    node.app_id = Some("app".to_string());
    assert_eq!(get_class(&node, &config), Ok("app".to_string()));
    assert_eq!(node.window_class(), Some(&"app".to_string()));
    assert_eq!(get_class(&container(vec![]), &config), Err(LookupError::MissingInformation));
    assert_eq!(get_class(&x_window(None), &config), Err(LookupError::MissingInformation));
}

#[test]
fn walk_takes_the_last_list_first() {
    let first = vec![window("a"), window("b")];
    let second = vec![container(vec![window("d")]), window("c")];
    let found = get_window_nodes(vec![&first, &second]);
    let ids: Vec<Option<String>> = found.iter().map(|n| n.app_id.clone()).collect();
    assert_eq!(
        ids,
        vec![None, Some("c".to_string()), Some("d".to_string()), Some("a".to_string()), Some("b".to_string())]
    );
    assert!(get_window_nodes(vec![]).is_empty());
}

#[test]
fn workspaces_are_the_grandchildren_of_kind_workspace() {
    let tree = root(vec![
        output(vec![workspace(Some("1"), vec![], vec![]), container(vec![])]),
        output(vec![]),
        output(vec![workspace(Some("2"), vec![], vec![]), workspace(Some("3"), vec![], vec![])]),
    ]);
    let names: Vec<Option<String>> = get_workspaces(&tree).iter().map(|w| w.name.clone()).collect();
    assert_eq!(
        names,
        vec![Some("1".to_string()), Some("2".to_string()), Some("3".to_string())]
    );
    let nested = root(vec![output(vec![container(vec![workspace(Some("9"), vec![], vec![])])])]);
    assert!(get_workspaces(&nested).is_empty());
}

#[test]
fn rename_command_quotes_both_names() {
    assert_eq!(rename_command("1", "1 firefox"), "rename workspace \"1\" to \"1 firefox\"");
    assert_eq!(rename_command("", ""), "rename workspace \"\" to \"\"");
}

#[test]
fn up_to_date_workspace_gets_no_command() {
    let tree = root(vec![output(vec![
        workspace(Some("1 kitty"), vec![window("kitty")], vec![]),
        workspace(Some("2"), vec![window("mpv")], vec![]),
    ])]);
    let plan = update_tree(&tree, &Config::default());
    assert_eq!(plan.commands, vec!["rename workspace \"2\" to \"2 mpv\"".to_string()]);
    assert_eq!(plan.failure, None);
}

#[test]
fn window_events_that_ask_for_an_update() {
    assert_eq!(handle_window_event(WindowChange::New), Reaction::Update);
    assert_eq!(handle_window_event(WindowChange::Close), Reaction::Update);
    assert_eq!(handle_window_event(WindowChange::Move), Reaction::Update);
    for change in [
        WindowChange::Focus,
        WindowChange::Title,
        WindowChange::FullscreenMode,
        WindowChange::Floating,
        WindowChange::Urgent,
        WindowChange::Mark,
    ] {
        assert_eq!(handle_window_event(change), Reaction::Ignore);
    }
}

#[test]
fn workspace_events_that_ask_for_an_update() {
    assert_eq!(handle_workspace_event(WorkspaceChange::Empty), Reaction::Update);
    assert_eq!(handle_workspace_event(WorkspaceChange::Focus), Reaction::Update);
    for change in [
        WorkspaceChange::Init,
        WorkspaceChange::Move,
        WorkspaceChange::Rename,
        WorkspaceChange::Urgent,
        WorkspaceChange::Reload,
    ] {
        assert_eq!(handle_workspace_event(change), Reaction::Ignore);
    }
}

#[test]
fn errors_have_messages() {
    assert_eq!(
        LookupError::MissingInformation.message(),
        "Failed to get app_id or window_properties for node"
    );
    assert_eq!(LookupError::WorkspaceName.message(), "Failed to get name for workspace");
}

#[test]
fn classes_are_collected_before_they_are_labelled() {
    let ws = workspace(
        Some("1"),
        vec![container(vec![window("firefox")]), x_window(None), window("kitty")],
        vec![x_window(Some("Gimp")), window("firefox")],
    );
    assert_eq!(collect_classes(&ws), strings(&["kitty", "firefox", "Gimp", "firefox"]));
    let mut config = icon_config();
    config.set_alias("Gimp", "gimp");
    assert_eq!(
        get_classes(&ws, &config),
        strings(&["⌨ kitty", "🌐 firefox", "gimp", "🌐 firefox"])
    );
    assert!(collect_classes(&workspace(Some("2"), vec![], vec![])).is_empty());
}
