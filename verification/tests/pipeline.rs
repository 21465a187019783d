use ape_dts::col_map::ColMap;
use ape_dts::col_value::ColValue;
use ape_dts::dt_data::{DtItem, StructStatement};
use ape_dts::dt_queue::DtQueue;
use ape_dts::pg_sinker::{PgSinker, SinkStep};
use ape_dts::row_data::{Position, RowData, RowType};
use ape_dts::snapshot_extractor::{ExtractAction, FetchRetry, MysqlSnapshotExtractor};
use ape_dts::snapshot_parallelizer::{ConsumerAction, SnapshotParallelizer};
use ape_dts::struct_extractor::MysqlStructExtractor;
use ape_dts::tb_meta::TbMeta;

fn test_meta(order_col: Option<&str>) -> TbMeta {
    TbMeta {
        schema: "db".to_string(),
        tb: "t".to_string(),
        cols: vec!["id".to_string(), "v".to_string()],
        id_cols: vec!["id".to_string()],
        order_col: order_col.map(|c| c.to_string()),
        col_types: vec![
            ("id".to_string(), "bigint".to_string()),
            ("v".to_string(), "text".to_string()),
        ],
    }
}

fn insert_row(id: i64, v: &[u8]) -> RowData {
    let mut after = ColMap::new();
    after.insert("id".to_string(), ColValue::Int(id));
    after.insert("v".to_string(), ColValue::Blob(v.to_vec()));
    RowData::new_insert("db".to_string(), "t".to_string(), after, Position::NoPosition).unwrap()
}

fn row_id(item: &DtItem) -> i64 {
    match item {
        DtItem::Row(row) => match row.after.get(&"id".to_string()) {
            Some(ColValue::Int(i)) => *i,
            _ => panic!("row without integer id"),
        },
        _ => panic!("not a row item"),
    }
}

#[test]
fn empty_table_snapshot() {
    let meta = test_meta(Some("id"));
    let mut ex = MysqlSnapshotExtractor::new(&meta, 100);
    let mut queue = DtQueue::new(0, 0);
    assert!(matches!(ex.next_action(&queue), ExtractAction::Fetch));
    let q = ex.next_query();
    assert_eq!(q.sql, "SELECT * FROM db.t ORDER BY id ASC LIMIT 100");
    assert!(q.bind.is_none());
    ex.accept_slice(Vec::new()).unwrap();
    let blocked = ex.pump(&mut queue);
    assert!(!blocked);
    assert_eq!(queue.len(), 0);
    assert!(matches!(ex.next_action(&queue), ExtractAction::Shutdown));
    assert!(ex.try_shutdown(&queue));
    assert!(matches!(ex.next_action(&queue), ExtractAction::Finished));
}

#[test]
fn single_slice_in_order() {
    let meta = test_meta(Some("id"));
    let mut ex = MysqlSnapshotExtractor::new(&meta, 100);
    let mut queue = DtQueue::new(0, 0);
    let rows: Vec<RowData> = (1..=42).map(|i| insert_row(i, b"x")).collect();
    ex.accept_slice(rows).unwrap();
    assert!(matches!(ex.next_action(&queue), ExtractAction::Pump));
    assert!(!ex.pump(&mut queue));
    assert_eq!(queue.len(), 42);
    // a short slice ends the scan: no second query
    assert!(matches!(ex.next_action(&queue), ExtractAction::WaitDrain));
    for want in 1..=42 {
        let item = queue.pop().unwrap();
        assert_eq!(row_id(&item), want);
    }
    assert!(ex.try_shutdown(&queue));
}

#[test]
fn multi_slice_boundary() {
    let meta = test_meta(Some("id"));
    let mut ex = MysqlSnapshotExtractor::new(&meta, 100);
    let mut queue = DtQueue::new(0, 0);

    let q1 = ex.next_query();
    assert_eq!(q1.sql, "SELECT * FROM db.t ORDER BY id ASC LIMIT 100");
    assert!(q1.bind.is_none());
    ex.accept_slice((1..=100).map(|i| insert_row(i, b"a")).collect())
        .unwrap();
    assert!(!ex.pump(&mut queue));

    // the slice was full, so a second round trip follows, keyset-bounded
    let q2 = ex.next_query();
    assert_eq!(
        q2.sql,
        "SELECT * FROM db.t WHERE id > ? ORDER BY id ASC LIMIT 100"
    );
    assert_eq!(q2.bind, Some(ColValue::Int(100)));
    ex.accept_slice((101..=200).map(|i| insert_row(i, b"a")).collect())
        .unwrap();
    assert!(!ex.pump(&mut queue));

    // the second slice was exactly full: one more, empty, probe is issued
    let q3 = ex.next_query();
    assert_eq!(q3.bind, Some(ColValue::Int(200)));
    ex.accept_slice(Vec::new()).unwrap();
    assert!(!ex.pump(&mut queue));
    assert!(matches!(ex.next_action(&queue), ExtractAction::WaitDrain));

    assert_eq!(queue.len(), 200);
    for want in 1..=200 {
        assert_eq!(row_id(&queue.pop().unwrap()), want);
    }
    assert!(ex.try_shutdown(&queue));
}

#[test]
fn partition_balance() {
    let rows: Vec<RowData> = (1..=10).map(|i| insert_row(i, b"r")).collect();
    let parts = SnapshotParallelizer::partition(rows, 3).unwrap();
    assert_eq!(parts.len(), 3);
    let sizes: Vec<usize> = parts.iter().map(|p| p.len()).collect();
    assert_eq!(sizes, vec![4, 4, 2]);
    let mut want: i64 = 1;
    for part in parts.iter() {
        for row in part.iter() {
            match row.after.get(&"id".to_string()) {
                Some(ColValue::Int(i)) => assert_eq!(*i, want),
                _ => panic!("missing id"),
            }
            want += 1;
        }
    }
}

#[test]
fn partition_single_worker() {
    let rows: Vec<RowData> = (1..=5).map(|i| insert_row(i, b"r")).collect();
    let parts = SnapshotParallelizer::partition(rows, 1).unwrap();
    assert_eq!(parts.len(), 1);
    assert_eq!(parts[0].len(), 5);
}

#[test]
fn queue_caps_and_fifo() {
    let mut queue = DtQueue::new(2, 0);
    assert!(queue.push(DtItem::Row(insert_row(1, b"a"))).is_ok());
    assert!(queue.push(DtItem::Row(insert_row(2, b"b"))).is_ok());
    let back = queue.push(DtItem::Row(insert_row(3, b"c")));
    assert!(back.is_err());
    assert_eq!(queue.len(), 2);
    assert_eq!(row_id(&queue.pop().unwrap()), 1);
    assert_eq!(row_id(&queue.pop().unwrap()), 2);
    assert!(queue.pop().is_none());
}

#[test]
fn drain_respects_item_budget() {
    let par = SnapshotParallelizer { parallel_size: 2 };
    let mut queue = DtQueue::new(0, 0);
    for i in 1..=5 {
        queue.push(DtItem::Row(insert_row(i, b"d"))).unwrap();
    }
    let batch = par.drain(&mut queue, 3, 0);
    assert_eq!(batch.len(), 3);
    assert_eq!(row_id(&batch[0]), 1);
    assert_eq!(row_id(&batch[2]), 3);
    assert_eq!(queue.len(), 2);
    let rest = par.drain(&mut queue, 10, 0);
    assert_eq!(rest.len(), 2);
    assert_eq!(row_id(&rest[1]), 5);
}

#[test]
fn consumer_step_decisions() {
    let par = SnapshotParallelizer { parallel_size: 2 };
    assert!(matches!(par.consumer_step(3, false), ConsumerAction::Sink));
    assert!(matches!(par.consumer_step(0, true), ConsumerAction::Exit));
    assert!(matches!(par.consumer_step(0, false), ConsumerAction::Wait));
}

#[test]
fn serial_upsert_statement() {
    let meta = test_meta(None);
    let sinker = PgSinker { batch_size: 100 };
    let row = insert_row(1, b"a");
    let (sql, cols, binds) = sinker.get_insert_query(&meta, &row);
    assert_eq!(
        sql,
        "INSERT INTO \"db\".\"t\" (\"id\",\"v\") VALUES ($1,$2) \
         ON CONFLICT (\"id\") DO UPDATE SET \"v\"=$3"
    );
    assert_eq!(cols, vec!["id".to_string(), "v".to_string(), "v".to_string()]);
    assert_eq!(
        binds,
        vec![
            ColValue::Int(1),
            ColValue::Blob(b"a".to_vec()),
            ColValue::Blob(b"a".to_vec()),
        ]
    );
}

#[test]
fn upsert_twice_same_key() {
    // the two statements the pipeline emits for (id=1,'a') then (id=1,'b')
    // are both conflict-updating upserts on id, so the second one wins and
    // no duplicate-key error can surface
    let meta = test_meta(None);
    let sinker = PgSinker { batch_size: 100 };
    let (sql_a, _, binds_a) = sinker.get_insert_query(&meta, &insert_row(1, b"a"));
    let (sql_b, _, binds_b) = sinker.get_insert_query(&meta, &insert_row(1, b"b"));
    assert_eq!(sql_a, sql_b);
    assert!(sql_b.contains("ON CONFLICT (\"id\") DO UPDATE SET"));
    assert_eq!(binds_a[0], binds_b[0]);
    assert_eq!(binds_b[2], ColValue::Blob(b"b".to_vec()));
}

#[test]
fn batch_insert_fallback_plan() {
    let meta = test_meta(None);
    let sinker = PgSinker { batch_size: 100 };
    let rows: Vec<RowData> = (1..=5).map(|i| insert_row(i, b"x")).collect();
    let plan = sinker.sink_dml(&meta, &rows, true);
    assert_eq!(plan.steps.len(), 1);
    match &plan.steps[0] {
        SinkStep::Batch { cmd, fallback } => {
            assert_eq!(
                cmd.sql,
                "INSERT INTO \"db\".\"t\" (\"id\",\"v\") VALUES \
                 ($1,$2),($3,$4),($5,$6),($7,$8),($9,$10) \
                 ON CONFLICT (\"id\") DO UPDATE SET \"v\"=EXCLUDED.\"v\""
            );
            assert_eq!(cmd.binds.len(), 10);
            assert_eq!(cmd.binds[6], ColValue::Int(4));
            // when the batch fails, each of the same five rows is re-run
            // alone so the offending one surfaces its own error
            assert_eq!(fallback.len(), 5);
            assert_eq!(fallback[3].binds[0], ColValue::Int(4));
            assert!(fallback[3].sql.contains("ON CONFLICT"));
        }
        SinkStep::Direct { .. } => panic!("expected a batched step"),
    }
}

#[test]
fn batch_insert_chunks_by_batch_size() {
    let meta = test_meta(None);
    let sinker = PgSinker { batch_size: 2 };
    let rows: Vec<RowData> = (1..=5).map(|i| insert_row(i, b"x")).collect();
    let plan = sinker.sink_dml(&meta, &rows, true);
    assert_eq!(plan.steps.len(), 3);
    match &plan.steps[2] {
        SinkStep::Batch { cmd, fallback } => {
            assert_eq!(cmd.binds.len(), 2);
            assert_eq!(cmd.binds[0], ColValue::Int(5));
            assert_eq!(fallback.len(), 1);
        }
        SinkStep::Direct { .. } => panic!("expected a batched step"),
    }
}

#[test]
fn mixed_batch_falls_back_to_serial() {
    let meta = test_meta(None);
    let sinker = PgSinker { batch_size: 100 };
    let mut before = ColMap::new();
    before.insert("id".to_string(), ColValue::Int(7));
    before.insert("v".to_string(), ColValue::Blob(b"z".to_vec()));
    let del =
        RowData::new_delete("db".to_string(), "t".to_string(), before, Position::NoPosition)
            .unwrap();
    let rows = vec![insert_row(1, b"x"), del];
    let plan = sinker.sink_dml(&meta, &rows, true);
    assert_eq!(plan.steps.len(), 2);
    match &plan.steps[1] {
        SinkStep::Direct { cmd } => {
            assert_eq!(cmd.sql, "DELETE FROM \"db\".\"t\" WHERE \"id\"=$1");
            assert_eq!(cmd.binds, vec![ColValue::Int(7)]);
        }
        SinkStep::Batch { .. } => panic!("expected a direct step"),
    }
}

#[test]
fn batch_delete_statement() {
    let meta = test_meta(None);
    let sinker = PgSinker { batch_size: 100 };
    let mut rows = Vec::new();
    for i in [3i64, 9] {
        let mut before = ColMap::new();
        before.insert("id".to_string(), ColValue::Int(i));
        before.insert("v".to_string(), ColValue::Blob(b"z".to_vec()));
        rows.push(
            RowData::new_delete("db".to_string(), "t".to_string(), before, Position::NoPosition)
                .unwrap(),
        );
    }
    let plan = sinker.sink_dml(&meta, &rows, true);
    assert_eq!(plan.steps.len(), 1);
    match &plan.steps[0] {
        SinkStep::Direct { cmd } => {
            assert_eq!(
                cmd.sql,
                "DELETE FROM \"db\".\"t\" WHERE (\"id\") IN (($1),($2))"
            );
            assert_eq!(cmd.binds, vec![ColValue::Int(3), ColValue::Int(9)]);
        }
        SinkStep::Batch { .. } => panic!("expected a direct step"),
    }
}

#[test]
fn row_images_follow_row_type() {
    let row = insert_row(5, b"q");
    assert_eq!(row.row_type, RowType::Insert);
    assert!(row.before.is_empty());
    assert!(!row.after.is_empty());
}

#[test]
fn struct_items_database_first() {
    let ex = MysqlStructExtractor { db: "db".to_string() };
    let mut queue = DtQueue::new(0, 0);
    let database = StructStatement::MysqlCreateDatabase {
        statement: "CREATE DATABASE db".to_string(),
    };
    let tables = vec![
        StructStatement::MysqlCreateTable {
            statement: "CREATE TABLE db.a (id bigint)".to_string(),
        },
        StructStatement::MysqlCreateTable {
            statement: "CREATE TABLE db.b (id bigint)".to_string(),
        },
    ];
    ex.extract_internal(&mut queue, database, tables).unwrap();
    assert_eq!(queue.len(), 3);
    match queue.pop().unwrap() {
        DtItem::Ddl(d) => {
            assert_eq!(d.schema, "db");
            assert!(matches!(
                d.statement,
                Some(StructStatement::MysqlCreateDatabase { .. })
            ));
        }
        _ => panic!("expected a DDL item"),
    }
    match queue.pop().unwrap() {
        DtItem::Ddl(d) => match d.statement {
            Some(StructStatement::MysqlCreateTable { statement }) => {
                assert!(statement.contains("db.a"));
            }
            _ => panic!("expected the first table statement"),
        },
        _ => panic!("expected a DDL item"),
    }
}

#[test]
fn slicing_column_missing_is_schema_drift() {
    let meta = test_meta(Some("id"));
    let mut ex = MysqlSnapshotExtractor::new(&meta, 10);
    let mut after = ColMap::new();
    after.insert("v".to_string(), ColValue::Blob(b"a".to_vec()));
    let row =
        RowData::new_insert("db".to_string(), "t".to_string(), after, Position::NoPosition)
            .unwrap();
    assert!(ex.accept_slice(vec![row]).is_err());
}

#[test]
fn full_scan_without_order_col() {
    let meta = test_meta(None);
    let mut ex = MysqlSnapshotExtractor::new(&meta, 10);
    let mut queue = DtQueue::new(0, 0);
    let q = ex.next_query();
    assert_eq!(q.sql, "SELECT * FROM db.t");
    ex.accept_slice((1..=3).map(|i| insert_row(i, b"f")).collect())
        .unwrap();
    assert!(!ex.pump(&mut queue));
    // a full scan is a single round trip: the scan is over
    assert!(matches!(ex.next_action(&queue), ExtractAction::WaitDrain));
    assert_eq!(queue.len(), 3);
}

#[test]
fn unset_slicing_value_is_rejected() {
    let meta = test_meta(Some("id"));
    let mut ex = MysqlSnapshotExtractor::new(&meta, 10);
    let mut after = ColMap::new();
    after.insert("id".to_string(), ColValue::Unset);
    after.insert("v".to_string(), ColValue::Blob(b"a".to_vec()));
    let row =
        RowData::new_insert("db".to_string(), "t".to_string(), after, Position::NoPosition)
            .unwrap();
    assert!(ex.accept_slice(vec![row]).is_err());
    // the machine is untouched: the first-slice query is still the next one
    let q = ex.next_query();
    assert!(q.bind.is_none());
}

#[test]
fn fetch_retries_once_then_escalates() {
    let meta = test_meta(Some("id"));
    let mut ex = MysqlSnapshotExtractor::new(&meta, 10);
    assert!(matches!(ex.on_fetch_error(), FetchRetry::RetryOnce));
    match ex.on_fetch_error() {
        FetchRetry::Escalate(e) => {
            assert_eq!(e.kind, ape_dts::error::DtErrorKind::ExtractIo);
            assert_eq!(e.schema, "db");
            assert_eq!(e.table, "t");
        }
        FetchRetry::RetryOnce => panic!("second failure must escalate"),
    }
    // a successful slice resets the count
    ex.accept_slice(vec![insert_row(1, b"a")]).unwrap();
    assert!(matches!(ex.on_fetch_error(), FetchRetry::RetryOnce));
}

#[test]
fn pump_blocks_only_on_a_full_queue() {
    let meta = test_meta(Some("id"));
    let mut ex = MysqlSnapshotExtractor::new(&meta, 10);
    let mut queue = DtQueue::new(2, 0);
    ex.accept_slice((1..=3).map(|i| insert_row(i, b"p")).collect())
        .unwrap();
    assert!(ex.pump(&mut queue));
    assert_eq!(queue.len(), 2);
    assert_eq!(row_id(&queue.pop().unwrap()), 1);
    // with room again, the pump finishes
    assert!(!ex.pump(&mut queue));
    assert_eq!(row_id(&queue.pop().unwrap()), 2);
    assert_eq!(row_id(&queue.pop().unwrap()), 3);
}

#[test]
fn struct_push_refused_by_full_queue() {
    let ex = MysqlStructExtractor { db: "db".to_string() };
    let mut queue = DtQueue::new(1, 0);
    queue.push(DtItem::Heartbeat).unwrap();
    let stmt = StructStatement::MysqlCreateTable {
        statement: "CREATE TABLE db.a (id bigint)".to_string(),
    };
    match ex.push_dt_data(&mut queue, stmt) {
        Err(StructStatement::MysqlCreateTable { statement }) => {
            assert!(statement.contains("db.a"));
        }
        _ => panic!("a full queue must hand the statement back"),
    }
    assert_eq!(queue.len(), 1);
}

#[test]
fn struct_extract_cancelled_on_full_queue() {
    let ex = MysqlStructExtractor { db: "db".to_string() };
    let mut queue = DtQueue::new(1, 0);
    queue.push(DtItem::Heartbeat).unwrap();
    let database = StructStatement::MysqlCreateDatabase {
        statement: "CREATE DATABASE db".to_string(),
    };
    let err = ex.extract_internal(&mut queue, database, Vec::new()).unwrap_err();
    assert_eq!(err.kind, ape_dts::error::DtErrorKind::Cancelled);
    assert_eq!(queue.len(), 1);
}
