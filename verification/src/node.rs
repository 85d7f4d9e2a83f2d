//! The layout tree: outputs, workspaces, containers and windows.
use vstd::prelude::*;

verus! {

/// What a node of the layout tree is.
#[derive(Clone, Copy, Debug, PartialEq, Eq, Structural)]
pub enum NodeKind {
    Root,
    Output,
    Workspace,
    Container,
    FloatingContainer,
    Dockarea,
}

/// What the window system reported of a window that has no application id.
pub struct WindowProperties {
    pub class: Option<String>,
}

/// One node of the layout tree, with its children.
///
/// A snapshot is a value of this type. The library only reads it.
pub struct LayoutNode {
    pub kind: NodeKind,
    /// The name shown for the node. Every workspace has one.
    pub name: Option<String>,
    /// The application id of a window.
    pub app_id: Option<String>,
    /// The window properties of a window.
    pub window_properties: Option<WindowProperties>,
    /// The tiled children, in order.
    pub nodes: Vec<LayoutNode>,
    /// The floating children, in order.
    pub floating_nodes: Vec<LayoutNode>,
}

/// Why a lookup in the tree gave nothing.
#[derive(Clone, Copy, Debug, PartialEq, Eq, Structural)]
pub enum LookupError {
    /// The node has neither an application id nor a window class.
    MissingInformation,
    /// The workspace has no name.
    WorkspaceName,
}

impl LookupError {
    /// The error in words.
    pub fn message(&self) -> (text: String)
        ensures
            text@ == match *self {
                LookupError::MissingInformation => "Failed to get app_id or window_properties for node"@,
                LookupError::WorkspaceName => "Failed to get name for workspace"@,
            },
    {
        match self {
            LookupError::MissingInformation => String::from_str(
                "Failed to get app_id or window_properties for node",
            ),
            LookupError::WorkspaceName => String::from_str("Failed to get name for workspace"),
        }
    }
}

impl LayoutNode {
    /// The class of the window that the node stands for: its application id,
    /// else the class among its window properties, else none.
    pub open spec fn class(&self) -> Option<Seq<char>> {
        match self.app_id {
            Some(id) => Some(id@),
            None => match self.window_properties {
                Some(properties) => match properties.class {
                    Some(class) => Some(class@),
                    None => None,
                },
                None => None,
            },
        }
    }

    /// A node without children of the given kind, name and application id.
    pub fn new(kind: NodeKind, name: Option<String>, app_id: Option<String>) -> (node: LayoutNode)
        ensures
            node.kind == kind,
            node.name == name,
            node.app_id == app_id,
            node.window_properties is None,
            node.nodes@.len() == 0,
            node.floating_nodes@.len() == 0,
    {
        LayoutNode {
            kind,
            name,
            app_id,
            window_properties: None,
            nodes: Vec::new(),
            floating_nodes: Vec::new(),
        }
    }

    /// Reads the class of the window that the node stands for.
    pub fn window_class(&self) -> (class: Option<&String>)
        ensures
            match class {
                Some(text) => self.class() == Some(text@),
                None => self.class() is None,
            },
    {
        match &self.app_id {
            Some(id) => Some(id),
            None => match &self.window_properties {
                Some(properties) => match &properties.class {
                    Some(class) => Some(class),
                    None => None,
                },
                None => None,
            },
        }
    }
}

/// The views of the strings of `texts`, in order.
pub open spec fn texts(strings: Seq<String>) -> Seq<Seq<char>> {
    Seq::new(strings.len(), |i: int| strings[i]@)
}

/// The nodes that the references of `refs` point to, in order.
pub open spec fn pointees(refs: Seq<&LayoutNode>) -> Seq<LayoutNode> {
    Seq::new(refs.len(), |i: int| *refs[i])
}

} // verus!
