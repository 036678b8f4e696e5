use isla::entities::conversation_message_metric::CreateConversationMessageMetric;
use isla::entities::conversation_summary_node::{
    ConversationSummaryNodeEntity, ListChildSummaryNodes, MessageText, MessagesInDistanceRange,
};
use isla::entities::conversation_summary_node::{
    InsertSummaryNodePlaceholder, MessageIdBounds, MessageIdBoundsInDistanceRange,
};
use isla::services::segment_tree::{
    bounds_queries, node_spans, placeholder_rows, children_source, finalized_nodes, finalized_row, level_one_source, node_span, node_width,
    plan_record, source_query, NodeAddr, NodeSourceQuery, RecomputeNode, SEGMENT_BASE,
};
use isla::services::ServiceError;

fn addr(level: i32, bucket: i64) -> NodeAddr {
    NodeAddr { level, bucket }
}

#[test]
fn no_nodes_finalized_below_the_first_boundary() {
    assert!(finalized_nodes(0, 50, 100).is_empty());
    assert!(finalized_nodes(50, 70, 100).is_empty());
}

#[test]
fn crossing_a_level_1_boundary_finalizes_one_node() {
    assert_eq!(finalized_nodes(99, 100, 100), vec![addr(1, 0)]);
    assert_eq!(finalized_nodes(180, 205, 100), vec![addr(1, 1)]);
}

#[test]
fn no_boundary_crossed_within_a_bucket() {
    assert!(finalized_nodes(150, 170, 100).is_empty());
}

#[test]
fn crossing_a_higher_boundary_cascades_bottom_up() {
    assert_eq!(
        finalized_nodes(9_999, 10_000, 100),
        vec![addr(1, 99), addr(2, 0)]
    );
}

#[test]
fn handles_multiple_buckets_in_one_jump() {
    assert_eq!(
        finalized_nodes(90, 320, 100),
        vec![addr(1, 0), addr(1, 1), addr(1, 2)]
    );
}

#[test]
fn node_width_is_base_to_the_level() {
    assert_eq!(node_width(100, 1).unwrap(), 100);
    assert_eq!(node_width(100, 2).unwrap(), 10_000);
    assert!(node_width(100, 100).is_err());
}

#[test]
fn node_width_errors() {
    assert_eq!(node_width(100, -1), Err(ServiceError::InvalidInput));
    assert_eq!(node_width(100, 10), Err(ServiceError::BusinessPanic));
    assert_eq!(node_width(100, 9), Ok(1_000_000_000_000_000_000));
    assert_eq!(node_width(100, 0), Ok(1));
    assert_eq!(node_width(-2, 63), Ok(i64::MIN));
    assert_eq!(node_width(2, 63), Err(ServiceError::BusinessPanic));
}

#[test]
fn degenerate_bases_finalize_nothing() {
    assert!(finalized_nodes(0, 1_000, 1).is_empty());
    assert!(finalized_nodes(500, 400, 100).is_empty());
}

#[test]
fn finalized_nodes_near_the_top_of_i64() {
    assert!(finalized_nodes(i64::MAX - 1, i64::MAX, 2).is_empty());
    assert_eq!(
        finalized_nodes(i64::MAX - 2, i64::MAX - 1, 2),
        vec![addr(1, (i64::MAX - 2) / 2)]
    );
}

#[test]
fn record_clamps_the_score_and_advances_the_distance() {
    let plan = plan_record(7, 40, 95);
    assert_eq!(plan.metric, CreateConversationMessageMetric { message_id: 7, score: 25 });
    assert_eq!(plan.cumulative_distance, 120);
    assert_eq!(plan.finalized, vec![addr(1, 0)]);

    let plan = plan_record(8, -3, 10);
    assert_eq!(plan.metric.score, 1);
    assert_eq!(plan.cumulative_distance, 11);
    assert!(plan.finalized.is_empty());

    let plan = plan_record(9, 12, 9_990);
    assert_eq!(plan.metric.score, 12);
    assert_eq!(plan.finalized, vec![addr(1, 99), addr(2, 0)]);
}

#[test]
fn node_span_saturates() {
    assert_eq!(node_span(addr(1, 3)), Ok((300, 400)));
    assert_eq!(node_span(addr(2, 1)), Ok((10_000, 20_000)));
    assert_eq!(node_span(addr(1, i64::MAX)), Ok((i64::MAX, i64::MAX)));
    assert_eq!(node_span(addr(1, -1)), Ok((-100, 0)));
    assert_eq!(node_span(addr(-1, 0)), Err(ServiceError::InvalidInput));
    assert_eq!(node_span(addr(12, 0)), Err(ServiceError::BusinessPanic));
    assert_eq!(SEGMENT_BASE, 100);
}

#[test]
fn level_one_nodes_read_messages_and_higher_nodes_read_children() {
    let level1 = RecomputeNode { conversation_id: 5, node: addr(1, 2) };
    assert_eq!(
        source_query(level1, (200, 300)),
        NodeSourceQuery::Messages(MessagesInDistanceRange {
            conversation_id: 5,
            distance_from: 200,
            distance_to: 300,
        })
    );
    let level2 = RecomputeNode { conversation_id: 5, node: addr(2, 0) };
    assert_eq!(
        source_query(level2, (0, 10_000)),
        NodeSourceQuery::Children(ListChildSummaryNodes {
            conversation_id: 5,
            level: 2,
            distance_from: 0,
            distance_to: 10_000,
        })
    );
}

fn message(id: i64, text: &str) -> MessageText {
    MessageText { message_id: id, text: text.to_string() }
}

fn child(from: i64, to: i64, summary: &str) -> ConversationSummaryNodeEntity {
    ConversationSummaryNodeEntity {
        id: 0,
        conversation_id: 1,
        level: 1,
        bucket: 0,
        covers_from_message_id: from,
        covers_to_message_id: to,
        distance_from: 0,
        distance_to: 100,
        summary: summary.to_string(),
        is_open: false,
        last_summary_children: 0,
        updated_at: 0,
    }
}

#[test]
fn sources_cover_their_parts() {
    let s = level_one_source(&vec![message(4, "a"), message(5, "b"), message(9, "c")]);
    assert_eq!(s.parts, vec!["a", "b", "c"]);
    assert_eq!((s.covers_from, s.covers_to), (4, 9));
    let empty = level_one_source(&Vec::new());
    assert!(empty.parts.is_empty());
    assert_eq!((empty.covers_from, empty.covers_to), (0, 0));

    let s = children_source(&vec![child(20, 30, "x"), child(3, 12, "y"), child(31, 40, "z")]);
    assert_eq!(s.parts, vec!["x", "y", "z"]);
    assert_eq!((s.covers_from, s.covers_to), (3, 40));
    let none = children_source(&Vec::new());
    assert_eq!((none.covers_from, none.covers_to), (0, 0));
}

#[test]
fn finalized_row_is_closed_and_counts_parts() {
    let row = finalized_row(
        RecomputeNode { conversation_id: 2, node: addr(1, 4) },
        (400, 500),
        (10, 20),
        3,
        "sum".to_string(),
        99,
    );
    assert_eq!(row.conversation_id, 2);
    assert_eq!((row.level, row.bucket), (1, 4));
    assert_eq!((row.distance_from, row.distance_to), (400, 500));
    assert_eq!((row.covers_from_message_id, row.covers_to_message_id), (10, 20));
    assert_eq!(row.summary, "sum");
    assert!(!row.is_open);
    assert_eq!(row.last_summary_children, 3);
    assert_eq!(row.updated_at, 99);
}

#[test]
fn consecutive_advances_finalize_each_node_once() {
    let first = finalized_nodes(90, 150, 100);
    let second = finalized_nodes(150, 320, 100);
    assert!(first.iter().all(|n| !second.contains(n)));
    let mut both = first.clone();
    both.extend(second);
    assert_eq!(both, finalized_nodes(90, 320, 100));

    let first = finalized_nodes(9_950, 9_999, 100);
    let second = finalized_nodes(9_999, 10_020, 100);
    assert!(first.is_empty());
    assert_eq!(second, vec![addr(1, 99), addr(2, 0)]);
}

#[test]
fn filled_nodes_are_registered_as_placeholders() {
    let nodes = finalized_nodes(9_990, 10_005, SEGMENT_BASE);
    assert_eq!(nodes, vec![addr(1, 99), addr(2, 0)]);
    let spans = node_spans(&nodes).expect("finalized nodes have spans");
    assert_eq!(spans, vec![(9_900, 10_000), (0, 10_000)]);
    let queries = bounds_queries(3, &spans);
    assert_eq!(
        queries[1],
        MessageIdBoundsInDistanceRange { conversation_id: 3, distance_from: 0, distance_to: 10_000 }
    );
    let bounds = vec![
        MessageIdBounds { from_id: 500, to_id: 510 },
        MessageIdBounds { from_id: 1, to_id: 510 },
    ];
    let rows = placeholder_rows(3, &nodes, &spans, &bounds, 77);
    assert_eq!(
        rows,
        vec![
            InsertSummaryNodePlaceholder {
                conversation_id: 3,
                level: 1,
                bucket: 99,
                covers_from_message_id: 500,
                covers_to_message_id: 510,
                distance_from: 9_900,
                distance_to: 10_000,
                updated_at: 77,
            },
            InsertSummaryNodePlaceholder {
                conversation_id: 3,
                level: 2,
                bucket: 0,
                covers_from_message_id: 1,
                covers_to_message_id: 510,
                distance_from: 0,
                distance_to: 10_000,
                updated_at: 77,
            },
        ]
    );
}

#[test]
fn spans_fail_at_the_first_bad_node() {
    assert_eq!(node_spans(&vec![addr(1, 0), addr(-1, 0), addr(30, 0)]), Err(ServiceError::InvalidInput));
    assert_eq!(node_spans(&vec![addr(30, 0), addr(-1, 0)]), Err(ServiceError::BusinessPanic));
    assert_eq!(node_spans(&vec![]), Ok(vec![]));
}
