use isla::entities::conversation_summary_node::{
    ConversationSummaryNodeEntity, CountSummaryNodeChildren,
};
use isla::services::segment_tree::NodeAddr;
use isla::services::summary::{
    child_count_queries, finish_context, prepare_context, SelectContextRequest, estimate_tokens, resolve_context, select_context, selected_nodes,
    summary_candidates, ChildCountQuery, ContextPlan, ContextResolution, MessageCost,
    SelectedNode, SummaryCandidate,
};

fn msg(id: i64, tokens: u32) -> MessageCost {
    MessageCost { id, tokens }
}

#[test]
fn keeps_recent_raw_messages_within_budget() {
    let recent = [msg(10, 30), msg(9, 30), msg(8, 30), msg(7, 30)];
    let plan = select_context(100, &recent, &[]);
    assert_eq!(plan.raw_message_ids, vec![10, 9, 8]);
    assert!(plan.summary_ids.is_empty());
}

#[test]
fn replaces_dropped_older_messages_with_a_summary() {
    let recent = [msg(10, 60), msg(9, 60), msg(8, 60)];
    let summaries = [SummaryCandidate {
        id: 1,
        level: 0,
        from_id: 1,
        to_id: 9,
        tokens: 20,
    }];
    let plan = select_context(100, &recent, &summaries);
    assert_eq!(plan.raw_message_ids, vec![10]);
    assert_eq!(plan.summary_ids, vec![1]);
}

#[test]
fn prefers_higher_level_summary_over_overlapping_lower_level() {
    let recent = [msg(100, 50)];
    let summaries = [
        SummaryCandidate {
            id: 1,
            level: 0,
            from_id: 1,
            to_id: 20,
            tokens: 30,
        },
        SummaryCandidate {
            id: 2,
            level: 1,
            from_id: 1,
            to_id: 50,
            tokens: 30,
        },
    ];
    let plan = select_context(100, &recent, &summaries);
    assert_eq!(plan.summary_ids, vec![2]);
}

#[test]
fn never_exceeds_budget() {
    let recent = [msg(10, 40), msg(9, 40)];
    let summaries = [
        SummaryCandidate {
            id: 1,
            level: 1,
            from_id: 1,
            to_id: 8,
            tokens: 40,
        },
        SummaryCandidate {
            id: 2,
            level: 0,
            from_id: 1,
            to_id: 4,
            tokens: 40,
        },
    ];
    let plan = select_context(100, &recent, &summaries);
    assert_eq!(plan.raw_message_ids, vec![10, 9]);
    assert!(plan.summary_ids.is_empty());
}

fn addr(level: i32, bucket: i64) -> NodeAddr {
    NodeAddr { level, bucket }
}

fn sel(level: i32, bucket: i64, last: i64, current: i64) -> SelectedNode {
    SelectedNode {
        node: addr(level, bucket),
        last_summary_children: last,
        current_children: current,
    }
}

#[test]
fn ready_when_no_summaries_were_selected() {
    let plan = ContextPlan {
        raw_message_ids: vec![10, 9],
        summary_ids: vec![],
    };
    assert_eq!(
        resolve_context(plan.clone(), &[]),
        ContextResolution::Ready(plan)
    );
}

#[test]
fn ready_when_every_selected_node_is_fresh() {
    let selected = [sel(1, 0, 100, 100), sel(2, 0, 100, 100)];
    let plan = ContextPlan {
        raw_message_ids: vec![10],
        summary_ids: vec![1, 2],
    };
    assert_eq!(
        resolve_context(plan.clone(), &selected),
        ContextResolution::Ready(plan)
    );
}

#[test]
fn pending_lists_a_placeholders_address() {
    let selected = [sel(1, 3, 0, 17)];
    let plan = ContextPlan {
        raw_message_ids: vec![],
        summary_ids: vec![1],
    };
    assert_eq!(
        resolve_context(plan, &selected),
        ContextResolution::Pending(vec![addr(1, 3)])
    );
}

#[test]
fn pending_holds_only_the_stale_nodes_in_selection_order() {
    let selected = [
        sel(2, 0, 100, 100),
        sel(1, 5, 80, 95),
        sel(1, 4, 100, 100),
        sel(1, 6, 0, 12),
    ];
    let plan = ContextPlan {
        raw_message_ids: vec![20],
        summary_ids: vec![10, 11, 12, 13],
    };
    assert_eq!(
        resolve_context(plan, &selected),
        ContextResolution::Pending(vec![addr(1, 5), addr(1, 6)])
    );
}

#[test]
fn tokens_are_a_quarter_of_the_bytes_plus_one() {
    assert_eq!(estimate_tokens(""), 1);
    assert_eq!(estimate_tokens("abc"), 1);
    assert_eq!(estimate_tokens("abcd"), 2);
    assert_eq!(estimate_tokens("ééé"), 2);
}

#[test]
fn zero_budget_keeps_nothing() {
    let recent = [msg(3, 1)];
    let summaries = [SummaryCandidate {
        id: 1,
        level: 0,
        from_id: 1,
        to_id: 2,
        tokens: 1,
    }];
    let plan = select_context(0, &recent, &summaries);
    assert!(plan.raw_message_ids.is_empty());
    assert!(plan.summary_ids.is_empty());
}

fn node(id: i64, level: i32, bucket: i64, from: i64, to: i64, summary: &str, last: i64) -> ConversationSummaryNodeEntity {
    ConversationSummaryNodeEntity {
        id,
        conversation_id: 4,
        level,
        bucket,
        covers_from_message_id: from,
        covers_to_message_id: to,
        distance_from: bucket * 100,
        distance_to: bucket * 100 + 100,
        summary: summary.to_string(),
        is_open: false,
        last_summary_children: last,
        updated_at: 0,
    }
}

#[test]
fn stored_nodes_become_priced_candidates() {
    let nodes = vec![node(1, 1, 0, 1, 9, "twelve chars", 9), node(2, 2, 0, 1, 30, "", 3)];
    let c = summary_candidates(&nodes);
    assert_eq!(
        c,
        vec![
            SummaryCandidate { id: 1, level: 1, from_id: 1, to_id: 9, tokens: 4 },
            SummaryCandidate { id: 2, level: 2, from_id: 1, to_id: 30, tokens: 1 },
        ]
    );
}

#[test]
fn child_counts_follow_the_chosen_ids_and_skip_unknown_ones() {
    let nodes = vec![node(1, 1, 0, 1, 9, "a", 9), node(2, 1, 1, 10, 19, "b", 7)];
    let q = child_count_queries(4, &vec![2, 5, 1], &nodes);
    assert_eq!(
        q,
        vec![
            ChildCountQuery {
                query: CountSummaryNodeChildren {
                    conversation_id: 4,
                    level: 1,
                    distance_from: 100,
                    distance_to: 200,
                },
                node: addr(1, 1),
                last_summary_children: 7,
            },
            ChildCountQuery {
                query: CountSummaryNodeChildren {
                    conversation_id: 4,
                    level: 1,
                    distance_from: 0,
                    distance_to: 100,
                },
                node: addr(1, 0),
                last_summary_children: 9,
            },
        ]
    );
    let s = selected_nodes(&q, &vec![8, 9]);
    assert_eq!(s, vec![sel(1, 1, 7, 8), sel(1, 0, 9, 9)]);
}

#[test]
fn recomputing_the_pending_nodes_serves_the_plan() {
    let selected = vec![sel(2, 0, 100, 100), sel(1, 5, 80, 95), sel(1, 6, 0, 12)];
    let plan = ContextPlan {
        raw_message_ids: vec![20],
        summary_ids: vec![10, 11, 13],
    };
    let pending = match resolve_context(plan.clone(), &selected) {
        ContextResolution::Pending(p) => p,
        ContextResolution::Ready(_) => panic!("stale nodes are pending"),
    };
    let refreshed: Vec<SelectedNode> = selected
        .iter()
        .map(|s| {
            if pending.contains(&s.node) {
                SelectedNode { last_summary_children: s.current_children, ..*s }
            } else {
                *s
            }
        })
        .collect();
    assert_eq!(resolve_context(plan.clone(), &refreshed), ContextResolution::Ready(plan));
}

#[test]
fn serving_a_request_prices_nodes_and_checks_freshness() {
    let nodes = vec![node(7, 1, 0, 1, 9, "a short summary", 9)];
    let request = SelectContextRequest {
        conversation_id: 4,
        budget: 100,
        recent_message_costs: vec![msg(10, 60), msg(9, 60)],
    };
    let (plan, queries) = prepare_context(&request, &nodes);
    assert_eq!(plan.raw_message_ids, vec![10]);
    assert_eq!(plan.summary_ids, vec![7]);
    assert_eq!(queries.len(), 1);
    assert_eq!(queries[0].node, addr(1, 0));
    assert_eq!(
        finish_context(plan.clone(), &queries, &vec![9]),
        ContextResolution::Ready(plan.clone())
    );
    assert_eq!(
        finish_context(plan, &queries, &vec![11]),
        ContextResolution::Pending(vec![addr(1, 0)])
    );
}
