//! One update: which workspaces of a snapshot are renamed, and when an update
//! is due.
use vstd::prelude::*;
use crate::collect::{get_classes, get_workspaces, workspace_labels, workspaces_under};
use crate::config::Config;
use crate::node::{LayoutNode, LookupError, texts};
use crate::synth::{command_text, lemma_rename_is_idempotent, new_name, rename_command, synthesize};

verus! {

/// What has happened to a window.
#[derive(Clone, Copy, Debug, PartialEq, Eq, Structural)]
pub enum WindowChange {
    New,
    Close,
    Focus,
    Title,
    FullscreenMode,
    Move,
    Floating,
    Urgent,
    Mark,
}

/// What has happened to a workspace.
#[derive(Clone, Copy, Debug, PartialEq, Eq, Structural)]
pub enum WorkspaceChange {
    Init,
    Empty,
    Focus,
    Move,
    Rename,
    Urgent,
    Reload,
}

/// What an event asks for.
#[derive(Clone, Copy, Debug, PartialEq, Eq, Structural)]
pub enum Reaction {
    /// Take a snapshot and update the names.
    Update,
    /// Do nothing.
    Ignore,
}

/// The outcome of one update: the commands to send, in order, and the error
/// that ended the update early, if one did.
pub struct UpdatePlan {
    pub commands: Vec<String>,
    pub failure: Option<LookupError>,
}

/// The command that brings the name of `workspace` up to date; none where the
/// name is as it should be.
pub open spec fn command_for(workspace: &LayoutNode, config: &Config) -> Option<Seq<char>>
    recommends
        workspace.name is Some,
{
    let old_name = workspace.name->0@;
    let renamed = new_name(old_name, workspace_labels(workspace, config), config);
    if old_name == renamed {
        None
    } else {
        Some(command_text(old_name, renamed))
    }
}

/// The commands for `workspaces`, taken in order, and the error that stops
/// the update: at the first workspace without a name the update ends with
/// `WorkspaceName`, and the commands for the workspaces before it stand.
pub open spec fn planned(workspaces: Seq<LayoutNode>, config: &Config) -> (
    Seq<Seq<char>>,
    Option<LookupError>,
)
    decreases workspaces.len(),
{
    if workspaces.len() == 0 {
        (Seq::empty(), None)
    } else if workspaces.first().name is None {
        (Seq::empty(), Some(LookupError::WorkspaceName))
    } else {
        let rest = planned(workspaces.drop_first(), config);
        match command_for(&workspaces.first(), config) {
            Some(command) => (seq![command] + rest.0, rest.1),
            None => rest,
        }
    }
}

/// True where `after` is `before` under the name that an update gives it.
pub open spec fn is_renamed(before: &LayoutNode, after: &LayoutNode, config: &Config) -> bool {
    &&& before.name is Some
    &&& after.name is Some
    &&& after.name->0@ == new_name(before.name->0@, workspace_labels(before, config), config)
    &&& after.nodes@ == before.nodes@
    &&& after.floating_nodes@ == before.floating_nodes@
}

/// Where `after` holds the workspaces of `before`, each under the name that
/// an update gives it, nothing is planned for `after`.
proof fn lemma_renamed_workspaces_are_settled(before: Seq<LayoutNode>, after: Seq<LayoutNode>, config: &Config)
    requires
        before.len() == after.len(),
        forall|i: int| 0 <= i < before.len() ==> is_renamed(&before[i], &after[i], config),
    ensures
        planned(after, config) == (Seq::<Seq<char>>::empty(), None::<LookupError>),
    decreases before.len(),
{
    if before.len() > 0 {
        assert(is_renamed(&before[0], &after[0], config));
        lemma_rename_is_idempotent(before[0].name->0@, workspace_labels(&before[0], config), config);
        assert(workspace_labels(&after[0], config) == workspace_labels(&before[0], config));
        assert forall|i: int| 0 <= i < before.drop_first().len() implies is_renamed(
            &before.drop_first()[i],
            &after.drop_first()[i],
            config,
        ) by {
            assert(is_renamed(&before[i + 1], &after[i + 1], config));
        }
        lemma_renamed_workspaces_are_settled(before.drop_first(), after.drop_first(), config);
    }
}

/// An update right after an update sends nothing: where the snapshot `after`
/// has the workspaces of the snapshot `before`, each with the same windows and
/// under the name that the update of `before` gives it, the update of `after`
/// plans no command and fails with no error.
pub proof fn lemma_second_update_is_silent(before: &LayoutNode, after: &LayoutNode, config: &Config)
    requires
        workspaces_under(before.nodes@).len() == workspaces_under(after.nodes@).len(),
        forall|i: int|
            0 <= i < workspaces_under(before.nodes@).len() ==> is_renamed(
                &workspaces_under(before.nodes@)[i],
                &workspaces_under(after.nodes@)[i],
                config,
            ),
    ensures
        planned(workspaces_under(after.nodes@), config) == (Seq::<Seq<char>>::empty(), None::<LookupError>),
{
    lemma_renamed_workspaces_are_settled(workspaces_under(before.nodes@), workspaces_under(after.nodes@), config);
}

/// Plans the update for the snapshot `tree`: for each workspace, in the order
/// of the snapshot, the rename command where its name differs from the one its
/// windows call for. A workspace without a name ends the update: the commands
/// planned before it are returned together with the error.
pub fn update_tree(tree: &LayoutNode, config: &Config) -> (plan: UpdatePlan)
    ensures
        (texts(plan.commands@), plan.failure) == planned(workspaces_under(tree.nodes@), config),
{
    let workspaces = get_workspaces(tree);
    let ghost all = workspaces_under(tree.nodes@);
    let mut commands: Vec<String> = Vec::new();
    let mut failure: Option<LookupError> = None;
    let mut i: usize = 0;
    assert(all.skip(0) =~= all);
    assert(texts(commands@) + planned(all, config).0 =~= planned(all, config).0);
    while i < workspaces.len() && failure.is_none()
        invariant
            i <= workspaces@.len(),
            all.len() == workspaces@.len(),
            forall|k: int| 0 <= k < all.len() ==> all[k] == *workspaces@[k],
            failure is None ==> planned(all, config) == (
                texts(commands@) + planned(all.skip(i as int), config).0,
                planned(all.skip(i as int), config).1,
            ),
            failure is Some ==> planned(all, config) == (texts(commands@), failure),
        decreases workspaces@.len() - i + (if failure is None { 1int } else { 0int }),
    {
        let workspace = workspaces[i];
        let ghost rest = all.skip(i as int);
        let ghost sent = texts(commands@);
        proof {
            assert(rest.first() == *workspace);
            assert(rest.drop_first() =~= all.skip(i + 1));
        }
        let labels = get_classes(workspace, config);
        match synthesize(workspace, labels, config) {
            Ok((old_name, renamed)) => {
                if !(old_name == renamed) {
                    let command = rename_command(old_name.as_str(), renamed.as_str());
                    commands.push(command);
                    assert(texts(commands@) =~= sent.push(command@));
                    assert(texts(commands@) + planned(all.skip(i + 1), config).0 =~= sent + (seq![command@]
                        + planned(all.skip(i + 1), config).0));
                }
                i = i + 1;
            },
            Err(e) => {
                failure = Some(e);
                assert(sent + Seq::<Seq<char>>::empty() =~= sent);
            },
        }
    }
    proof {
        if failure is None {
            assert(texts(commands@) + Seq::<Seq<char>>::empty() =~= texts(commands@));
        }
    }
    UpdatePlan { commands, failure }
}

/// Says what a window event asks for: an update where a window is new, was
/// closed or was moved.
pub fn handle_window_event(change: WindowChange) -> (reaction: Reaction)
    ensures
        reaction == (if change == WindowChange::New || change == WindowChange::Close || change
            == WindowChange::Move {
            Reaction::Update
        } else {
            Reaction::Ignore
        }),
{
    match change {
        WindowChange::New | WindowChange::Close | WindowChange::Move => Reaction::Update,
        _ => Reaction::Ignore,
    }
}

/// Says what a workspace event asks for: an update where a workspace became
/// empty or got the focus.
pub fn handle_workspace_event(change: WorkspaceChange) -> (reaction: Reaction)
    ensures
        reaction == (if change == WorkspaceChange::Empty || change == WorkspaceChange::Focus {
            Reaction::Update
        } else {
            Reaction::Ignore
        }),
{
    match change {
        WorkspaceChange::Empty | WorkspaceChange::Focus => Reaction::Update,
        _ => Reaction::Ignore,
    }
}

} // verus!
