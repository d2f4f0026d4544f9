use lift_cabin::negotiation::{
    NegotiationDebugData, NegotiationDebugWidget, NegotiationNode, NegotiationTaskStatus, NodeRow,
    PanelRow,
};

fn node(id: usize, parent: Option<usize>, keys: usize, conflicts: usize) -> NegotiationNode {
    NegotiationNode {
        id,
        parent,
        keys: (0..keys).map(|k| format!("key {k}")).collect(),
        conflicts,
    }
}

fn widget(status: NegotiationTaskStatus, selected: Option<usize>) -> NegotiationDebugWidget {
    NegotiationDebugWidget {
        negotiation_task: status,
        negotiation_debug_data: NegotiationDebugData {
            show_debug_panel: true,
            selected_negotiation_node: selected,
        },
    }
}

#[test]
fn panel_says_when_nothing_was_started_or_is_going_on() {
    let idle = widget(NegotiationTaskStatus::NotStarted, None);
    assert_eq!(idle.show(), vec![PanelRow::NotStarted]);
    assert!(idle.show_completed().is_empty());
    let busy = widget(NegotiationTaskStatus::InProgress, Some(3));
    assert_eq!(busy.show(), vec![PanelRow::InProgress]);
    assert!(busy.show_completed().is_empty());
    assert!(busy.is_shown());
}

#[test]
fn completed_negotiation_shows_solution_errors_and_history() {
    let status = NegotiationTaskStatus::Complete {
        solution: Some(node(2, Some(1), 3, 0)),
        negotiation_history: vec![node(0, None, 1, 4), node(1, Some(0), 2, 1), node(2, Some(1), 3, 0)],
        error_message: None,
    };
    let panel = widget(status, Some(1));
    let rows = panel.show();
    assert_eq!(
        rows,
        vec![
            PanelRow::Space,
            PanelRow::SolutionHeading,
            PanelRow::Node(NodeRow { id: 2, selected: false, keys: 3, conflicts: 0, parent: Some(1) }),
            PanelRow::Space,
            PanelRow::ErrorsHeading,
            PanelRow::NoErrors,
            PanelRow::Space,
            PanelRow::HistoryHeading,
            PanelRow::Node(NodeRow { id: 0, selected: false, keys: 1, conflicts: 4, parent: None }),
            PanelRow::Node(NodeRow { id: 1, selected: true, keys: 2, conflicts: 1, parent: Some(0) }),
            PanelRow::Node(NodeRow { id: 2, selected: false, keys: 3, conflicts: 0, parent: Some(1) }),
        ]
    );
    assert_eq!(panel.show_completed(), rows);
}

#[test]
fn failed_negotiation_shows_its_message_and_no_solution() {
    let status = NegotiationTaskStatus::Complete {
        solution: None,
        negotiation_history: vec![],
        error_message: Some(String::from("no path")),
    };
    assert_eq!(
        widget(status, None).show(),
        vec![
            PanelRow::Space,
            PanelRow::SolutionHeading,
            PanelRow::NoSolution,
            PanelRow::Space,
            PanelRow::ErrorsHeading,
            PanelRow::ErrorMessage,
            PanelRow::Space,
            PanelRow::HistoryHeading,
        ]
    );
}

#[test]
fn picking_a_node_marks_it_and_no_other() {
    let status = NegotiationTaskStatus::Complete {
        solution: None,
        negotiation_history: vec![node(7, None, 0, 0), node(8, Some(7), 0, 0)],
        error_message: None,
    };
    let mut panel = widget(status, None);
    panel.negotiation_debug_data.show_debug_panel = false;
    assert!(!panel.show_negotiation_node(&node(7, None, 0, 0)).selected);
    panel.select_node(8);
    assert!(!panel.is_shown());
    assert!(!panel.show_negotiation_node(&node(7, None, 0, 0)).selected);
    assert!(panel.show_negotiation_node(&node(8, Some(7), 0, 0)).selected);
    let picked: Vec<bool> = panel
        .show()
        .into_iter()
        .filter_map(|row| match row {
            PanelRow::Node(row) => Some(row.selected),
            _ => None,
        })
        .collect();
    assert_eq!(picked, vec![false, true]);
}
