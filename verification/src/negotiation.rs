//! What the panel for looking into a negotiation shows.
//!
//! The panel itself is drawn elsewhere. Here it is decided, from the state of
//! the negotiation, which rows it has and in what order.

use vstd::prelude::*;

verus! {

/// One node of a negotiation, as far as the panel shows it.
#[derive(Clone, Debug, PartialEq, Eq)]
pub struct NegotiationNode {
    pub id: usize,
    pub parent: Option<usize>,
    /// The keys of the node, each as it is written out.
    pub keys: Vec<String>,
    /// How many conflicts the node has.
    pub conflicts: usize,
}

/// How far a negotiation has come.
#[derive(Debug, PartialEq, Eq)]
pub enum NegotiationTaskStatus {
    NotStarted,
    InProgress,
    Complete {
        solution: Option<NegotiationNode>,
        negotiation_history: Vec<NegotiationNode>,
        error_message: Option<String>,
    },
}

/// What the user has set in the panel.
#[derive(Clone, Copy, Debug, PartialEq, Eq, Structural)]
pub struct NegotiationDebugData {
    pub show_debug_panel: bool,
    pub selected_negotiation_node: Option<usize>,
}

/// The frame of one node in the panel.
#[derive(Clone, Copy, Debug, PartialEq, Eq, Structural)]
pub struct NodeRow {
    pub id: usize,
    /// Whether the node is the one that the user has picked.
    pub selected: bool,
    pub keys: usize,
    pub conflicts: usize,
    pub parent: Option<usize>,
}

/// One row of the panel.
#[derive(Clone, Copy, Debug, PartialEq, Eq, Structural)]
pub enum PanelRow {
    /// Some room between two parts.
    Space,
    /// The line that says how long the solution took.
    SolutionHeading,
    /// A frame that says that no solution was found.
    NoSolution,
    /// The heading of the errors.
    ErrorsHeading,
    /// A frame with the error message of the negotiation.
    ErrorMessage,
    /// A frame that says that there were no errors.
    NoErrors,
    /// The heading of the history.
    HistoryHeading,
    /// The frame of a node.
    Node(NodeRow),
    /// The line that says for how long the negotiation has been going on.
    InProgress,
    /// The line that says that no negotiation was started.
    NotStarted,
}

/// The panel for looking into a negotiation: the negotiation and what the
/// user has set.
#[derive(Debug, PartialEq, Eq)]
pub struct NegotiationDebugWidget {
    pub negotiation_task: NegotiationTaskStatus,
    pub negotiation_debug_data: NegotiationDebugData,
}

/// The frame of `node` where `selected` is the node that the user has picked.
pub open spec fn node_row(node: NegotiationNode, selected: Option<usize>) -> NodeRow {
    NodeRow {
        id: node.id,
        selected: selected == Some(node.id),
        keys: node.keys@.len() as usize,
        conflicts: node.conflicts,
        parent: node.parent,
    }
}

/// The rows of a negotiation that has come to an end: the solution, the
/// errors, and the history node by node.
pub open spec fn completed_rows(
    solution: Option<NegotiationNode>,
    history: Seq<NegotiationNode>,
    failed: bool,
    selected: Option<usize>,
) -> Seq<PanelRow> {
    seq![
        PanelRow::Space,
        PanelRow::SolutionHeading,
        match solution {
            Some(node) => PanelRow::Node(node_row(node, selected)),
            None => PanelRow::NoSolution,
        },
        PanelRow::Space,
        PanelRow::ErrorsHeading,
        if failed {
            PanelRow::ErrorMessage
        } else {
            PanelRow::NoErrors
        },
        PanelRow::Space,
        PanelRow::HistoryHeading,
    ] + history.map_values(|node: NegotiationNode| PanelRow::Node(node_row(node, selected)))
}

impl NegotiationDebugWidget {
    /// The rows that `show_completed` gives.
    pub open spec fn completed(self) -> Seq<PanelRow> {
        match self.negotiation_task {
            NegotiationTaskStatus::Complete { solution, negotiation_history, error_message } => {
                completed_rows(
                    solution,
                    negotiation_history@,
                    error_message is Some,
                    self.negotiation_debug_data.selected_negotiation_node,
                )
            },
            _ => Seq::empty(),
        }
    }

    /// The rows that `show` gives.
    pub open spec fn rows(self) -> Seq<PanelRow> {
        match self.negotiation_task {
            NegotiationTaskStatus::Complete { .. } => self.completed(),
            NegotiationTaskStatus::InProgress => seq![PanelRow::InProgress],
            NegotiationTaskStatus::NotStarted => seq![PanelRow::NotStarted],
        }
    }

    /// Whether the panel is to be seen at all.
    pub fn is_shown(&self) -> (shown: bool)
        ensures
            shown == self.negotiation_debug_data.show_debug_panel,
    {
        self.negotiation_debug_data.show_debug_panel
    }

    /// The frame of `node`.
    pub fn show_negotiation_node(&self, node: &NegotiationNode) -> (row: NodeRow)
        ensures
            row == node_row(*node, self.negotiation_debug_data.selected_negotiation_node),
    {
        let selected = match self.negotiation_debug_data.selected_negotiation_node {
            Some(id) => id == node.id,
            None => false,
        };
        NodeRow {
            id: node.id,
            selected,
            keys: node.keys.len(),
            conflicts: node.conflicts,
            parent: node.parent,
        }
    }

    /// The rows of a negotiation that has come to an end; none for one that
    /// has not.
    pub fn show_completed(&self) -> (rows: Vec<PanelRow>)
        ensures
            rows@ == self.completed(),
    {
        let mut rows: Vec<PanelRow> = Vec::new();
        match &self.negotiation_task {
            NegotiationTaskStatus::Complete { solution, negotiation_history, error_message } => {
                let ghost selected = self.negotiation_debug_data.selected_negotiation_node;
                rows.push(PanelRow::Space);
                rows.push(PanelRow::SolutionHeading);
                match solution {
                    Some(node) => {
                        rows.push(PanelRow::Node(self.show_negotiation_node(node)));
                    },
                    None => {
                        rows.push(PanelRow::NoSolution);
                    },
                }
                rows.push(PanelRow::Space);
                rows.push(PanelRow::ErrorsHeading);
                if error_message.is_some() {
                    rows.push(PanelRow::ErrorMessage);
                } else {
                    rows.push(PanelRow::NoErrors);
                }
                rows.push(PanelRow::Space);
                rows.push(PanelRow::HistoryHeading);
                let ghost head = rows@;
                let mut i: usize = 0;
                while i < negotiation_history.len()
                    invariant
                        i <= negotiation_history@.len(),
                        selected == self.negotiation_debug_data.selected_negotiation_node,
                        rows@ == head + negotiation_history@.take(i as int).map_values(
                            |node: NegotiationNode| PanelRow::Node(node_row(node, selected)),
                        ),
                    decreases negotiation_history@.len() - i,
                {
                    let ghost before = rows@;
                    rows.push(PanelRow::Node(self.show_negotiation_node(&negotiation_history[i])));
                    proof {
                        let shown = |node: NegotiationNode| PanelRow::Node(node_row(node, selected));
                        assert(negotiation_history@.take(i + 1).map_values(shown)
                            =~= negotiation_history@.take(i as int).map_values(shown).push(
                            shown(negotiation_history@[i as int]),
                        ));
                        assert(rows@ =~= head + negotiation_history@.take(i + 1).map_values(shown));
                    }
                    i = i + 1;
                }
                proof {
                    assert(negotiation_history@.take(negotiation_history@.len() as int)
                        =~= negotiation_history@);
                    assert(rows@ =~= self.completed());
                }
            },
            _ => {},
        }
        rows
    }

    /// The rows of the panel.
    pub fn show(&self) -> (rows: Vec<PanelRow>)
        ensures
            rows@ == self.rows(),
    {
        match &self.negotiation_task {
            NegotiationTaskStatus::Complete { .. } => self.show_completed(),
            NegotiationTaskStatus::InProgress => {
                let mut rows: Vec<PanelRow> = Vec::new();
                rows.push(PanelRow::InProgress);
                assert(rows@ =~= seq![PanelRow::InProgress]);
                rows
            },
            NegotiationTaskStatus::NotStarted => {
                let mut rows: Vec<PanelRow> = Vec::new();
                rows.push(PanelRow::NotStarted);
                assert(rows@ =~= seq![PanelRow::NotStarted]);
                rows
            },
        }
    }

    /// The user picks the node `id`.
    pub fn select_node(&mut self, id: usize)
        ensures
            final(self).negotiation_debug_data.selected_negotiation_node == Some(id),
            final(self).negotiation_debug_data.show_debug_panel == old(
                self,
            ).negotiation_debug_data.show_debug_panel,
            final(self).negotiation_task == old(self).negotiation_task,
    {
        self.negotiation_debug_data.selected_negotiation_node = Some(id);
    }
}

} // verus!
