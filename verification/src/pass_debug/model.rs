use vstd::prelude::*;

verus! {

/// `true` exactly when `value` is `false`; the serialized form of a dependency
/// node leaves its `reference` flag out when it is not set.
pub fn is_false(value: &bool) -> (r: bool)
    ensures
        r == !*value,
{
    !*value
}

/// A byte range of the WGSL source together with the 1-based line and column
/// (counted in bytes) of its first byte.
#[derive(Clone, Copy, Debug, PartialEq, Eq, Structural)]
pub struct PassDebugSourceRange {
    pub start_byte: usize,
    pub end_byte: usize,
    pub line: u32,
    pub column: u32,
}

/// One node of the AST outline shown for a render pass.
#[derive(Debug, PartialEq, Eq)]
pub struct PassDebugAstNode {
    pub label: String,
    pub target_id: Option<String>,
    pub role: Option<String>,
    pub source_range: Option<PassDebugSourceRange>,
    pub children: Vec<PassDebugAstNode>,
}

impl PassDebugAstNode {
    /// A node without children, target or source range.
    pub fn leaf(label: String) -> (r: Self)
        ensures
            r.label@ == label@,
            r.target_id is None,
            r.role is None,
            r.source_range is None,
            r.children@.len() == 0,
    {
        PassDebugAstNode {
            label,
            target_id: None,
            role: None,
            source_range: None,
            children: Vec::new(),
        }
    }

    /// A node with the given children and no target or source range.
    pub fn branch(label: String, children: Vec<Self>) -> (r: Self)
        ensures
            r.label@ == label@,
            r.target_id is None,
            r.role is None,
            r.source_range is None,
            r.children@ == children@,
    {
        PassDebugAstNode { label, target_id: None, role: None, source_range: None, children }
    }

    /// The same node with its source range replaced.
    pub fn with_source_range(self, source_range: Option<PassDebugSourceRange>) -> (r: Self)
        ensures
            r == (PassDebugAstNode { source_range, ..self }),
    {
        let mut node = self;
        node.source_range = source_range;
        node
    }

    /// The same node linked to a dependency target: its target id, role and
    /// source range are replaced.
    pub fn with_target_range(
        self,
        target_id: String,
        role: String,
        source_range: Option<PassDebugSourceRange>,
    ) -> (r: Self)
        ensures
            r == (PassDebugAstNode {
                target_id: Some(target_id),
                role: Some(role),
                source_range,
                ..self
            }),
    {
        let mut node = self;
        node.target_id = Some(target_id);
        node.role = Some(role);
        node.source_range = source_range;
        node
    }
}

/// A named value of the module whose contributors can be inspected: a global,
/// a function argument, a local variable, a named `let` or an entry-point return.
#[derive(Clone, Debug, PartialEq, Eq)]
pub struct PassDebugDependencyTarget {
    pub id: String,
    pub name: String,
    pub label: String,
    pub scope: String,
    pub kind: String,
    pub source_range: Option<PassDebugSourceRange>,
}

/// One node of a dependency tree.
#[derive(Debug, PartialEq, Eq)]
pub struct PassDebugDependencyNode {
    pub label: String,
    pub edge_label: Option<String>,
    pub display_label: Option<String>,
    pub source_range: Option<PassDebugSourceRange>,
    pub definition_source_range: Option<PassDebugSourceRange>,
    pub target_id: Option<String>,
    pub reference: bool,
    pub children: Vec<PassDebugDependencyNode>,
}

impl PassDebugDependencyNode {
    /// A plain node: no children, labels, ranges or target, not a reference.
    pub fn leaf(label: String) -> (r: Self)
        ensures
            r.label@ == label@,
            r.edge_label is None,
            r.display_label is None,
            r.source_range is None,
            r.definition_source_range is None,
            r.target_id is None,
            !r.reference,
            r.children@.len() == 0,
    {
        PassDebugDependencyNode {
            label,
            edge_label: None,
            display_label: None,
            source_range: None,
            definition_source_range: None,
            target_id: None,
            reference: false,
            children: Vec::new(),
        }
    }

    /// A plain node with the given children.
    pub fn branch(label: String, children: Vec<Self>) -> (r: Self)
        ensures
            r.label@ == label@,
            r.edge_label is None,
            r.display_label is None,
            r.source_range is None,
            r.definition_source_range is None,
            r.target_id is None,
            !r.reference,
            r.children@ == children@,
    {
        PassDebugDependencyNode {
            label,
            edge_label: None,
            display_label: None,
            source_range: None,
            definition_source_range: None,
            target_id: None,
            reference: false,
            children,
        }
    }

    /// A node that stands for a dependency target, with the given children.
    pub fn target(label: String, target_id: String, children: Vec<Self>) -> (r: Self)
        ensures
            r.label@ == label@,
            r.edge_label is None,
            r.display_label is None,
            r.source_range is None,
            r.definition_source_range is None,
            r.target_id == Some(target_id),
            !r.reference,
            r.children@ == children@,
    {
        PassDebugDependencyNode {
            label,
            edge_label: None,
            display_label: None,
            source_range: None,
            definition_source_range: None,
            target_id: Some(target_id),
            reference: false,
            children,
        }
    }

    /// A childless node that refers to a target whose tree is shown elsewhere.
    pub fn target_reference(label: String, target_id: String) -> (r: Self)
        ensures
            r.label@ == label@,
            r.edge_label is None,
            r.display_label is None,
            r.source_range is None,
            r.definition_source_range is None,
            r.target_id == Some(target_id),
            r.reference,
            r.children@.len() == 0,
    {
        Self::target(label, target_id, Vec::new()).with_reference()
    }

    /// The same node marked as a reference.
    pub fn with_reference(self) -> (r: Self)
        ensures
            r == (PassDebugDependencyNode { reference: true, ..self }),
    {
        let mut node = self;
        node.reference = true;
        node
    }

    /// The same node with its edge label replaced.
    pub fn with_edge_label(self, edge_label: Option<String>) -> (r: Self)
        ensures
            r == (PassDebugDependencyNode { edge_label, ..self }),
    {
        let mut node = self;
        node.edge_label = edge_label;
        node
    }

    /// The same node with its display label replaced.
    pub fn with_display_label(self, display_label: Option<String>) -> (r: Self)
        ensures
            r == (PassDebugDependencyNode { display_label, ..self }),
    {
        let mut node = self;
        node.display_label = display_label;
        node
    }

    /// The same node with its source range replaced.
    pub fn with_source_range(self, source_range: Option<PassDebugSourceRange>) -> (r: Self)
        ensures
            r == (PassDebugDependencyNode { source_range, ..self }),
    {
        let mut node = self;
        node.source_range = source_range;
        node
    }

    /// The same node with its definition source range replaced.
    pub fn with_definition_source_range(
        self,
        definition_source_range: Option<PassDebugSourceRange>,
    ) -> (r: Self)
        ensures
            r == (PassDebugDependencyNode { definition_source_range, ..self }),
    {
        let mut node = self;
        node.definition_source_range = definition_source_range;
        node
    }
}

} // verus!
