use tellur_storage::audit::{
    append_audit_row, audit_hash, list_audit_query, seal_checkpoint, sealed_count,
    verify_audit_log, AuditEntry, AuditLogRow, AuditParam,
};
use tellur_storage::chain::ChainHead;
use tellur_storage::sql::Dialect;

fn entry(org: Option<&str>, actor: Option<&str>, action: &str, detail: &str) -> AuditEntry {
    AuditEntry {
        org_id: org.map(str::to_string),
        actor_member_id: actor.map(str::to_string),
        action: action.to_string(),
        detail: detail.to_string(),
    }
}

fn log_of(n: usize) -> (Vec<AuditLogRow>, ChainHead) {
    let mut head = ChainHead::genesis();
    let mut rows = Vec::new();
    for i in 0..n {
        let e = entry(Some("org_1"), Some("mbr_1"), "access", &format!("request {i}"));
        rows.push(append_audit_row(&mut head, format!("2024-01-0{}T00:00:00Z", i + 1), &e));
    }
    (rows, head)
}

#[test]
fn audit_hash_covers_prev_and_fields() {
    let h = audit_hash("", "2024-01-01T00:00:00Z", Some("org_1"), None, "login", "ok");
    assert_eq!(
        h,
        "a3978a3608fefde715120c5c4af419f66bc2a2998f681650ad483eba6af3aec3"
    );
    let h2 = audit_hash("", "2024-01-01T00:00:00Z", Some("org_1"), None, "login", "ok!");
    assert_ne!(h, h2);
    let h3 = audit_hash("x", "2024-01-01T00:00:00Z", Some("org_1"), None, "login", "ok");
    assert_ne!(h, h3);
}

#[test]
fn absent_org_and_actor_hash_as_empty_text() {
    assert_eq!(
        audit_hash("p", "t", None, None, "a", "d"),
        audit_hash("p", "t", Some(""), Some(""), "a", "d")
    );
}

#[test]
fn audit_chain_appends_and_verifies_in_memory() {
    let (rows, head) = log_of(3);
    assert_eq!(head.count, 3);
    assert_eq!(rows[0].prev_hash, "");
    assert_eq!(rows[1].prev_hash, rows[0].entry_hash);
    assert_eq!(head.hash, rows[2].entry_hash);
    assert!(verify_audit_log(&rows, &ChainHead::genesis(), &head));
}

#[test]
fn appended_row_carries_entry_fields() {
    let mut head = ChainHead::genesis();
    let e = entry(None, Some("cli"), "create_token", "member mbr_9");
    let r = append_audit_row(&mut head, "2024-05-05T00:00:00Z".to_string(), &e);
    assert_eq!(r.org_id, None);
    assert_eq!(r.actor_member_id.as_deref(), Some("cli"));
    assert_eq!(r.action, "create_token");
    assert_eq!(r.detail, "member mbr_9");
    assert_eq!(r.ts, "2024-05-05T00:00:00Z");
    assert_eq!(
        r.entry_hash,
        audit_hash("", "2024-05-05T00:00:00Z", None, Some("cli"), "create_token", "member mbr_9")
    );
}

#[test]
fn audit_tampering_is_detected() {
    let (mut rows, head) = log_of(3);
    rows[1].detail = "forged".to_string();
    assert!(!verify_audit_log(&rows, &ChainHead::genesis(), &head));
}

#[test]
fn audit_tail_truncation_is_detected() {
    let (mut rows, head) = log_of(3);
    rows.pop();
    assert!(!verify_audit_log(&rows, &ChainHead::genesis(), &head));
}

#[test]
fn audit_seal_keeps_retained_rows_verifiable() {
    let (rows, head) = log_of(5);
    // Seal at the second row: two pruned, three retained.
    let sealed = seal_checkpoint(rows[1].entry_hash.clone(), head.count, 3);
    assert_eq!(sealed.count, 2);
    assert_eq!(sealed_count(5, 3), 2);
    let retained = rows[2..].to_vec();
    assert!(verify_audit_log(&retained, &sealed, &head));
    assert!(!verify_audit_log(&retained, &ChainHead::genesis(), &head));
}

#[test]
fn list_audit_query_without_filters() {
    let q = list_audit_query(Dialect::Sqlite, "org_1", None, None, None, None, 50);
    assert_eq!(
        q.sql,
        "SELECT seq, ts, org_id, actor_member_id, action, detail, entry_hash FROM audit_log WHERE org_id = ?1 ORDER BY seq DESC LIMIT ?2"
    );
    assert_eq!(
        q.params,
        vec![AuditParam::Text("org_1".to_string()), AuditParam::Int(50)]
    );
}

#[test]
fn list_audit_query_numbers_each_filter() {
    let q = list_audit_query(Dialect::Sqlite, "org_1", Some("mbr_1"), None, Some("2024-01-01"), Some(99), 10);
    assert_eq!(
        q.sql,
        "SELECT seq, ts, org_id, actor_member_id, action, detail, entry_hash FROM audit_log WHERE org_id = ?1 AND actor_member_id = ?2 AND ts >= ?3 AND seq < ?4 ORDER BY seq DESC LIMIT ?5"
    );
    assert_eq!(
        q.params,
        vec![
            AuditParam::Text("org_1".to_string()),
            AuditParam::Text("mbr_1".to_string()),
            AuditParam::Text("2024-01-01".to_string()),
            AuditParam::Int(99),
            AuditParam::Int(10),
        ]
    );
    let all = list_audit_query(Dialect::Sqlite, "o", Some("a"), Some("b"), Some("c"), Some(1), 2);
    assert!(all.sql.ends_with(" AND action = ?3 AND ts >= ?4 AND seq < ?5 ORDER BY seq DESC LIMIT ?6"));
    assert_eq!(all.params.len(), 6);
}

#[test]
fn list_audit_query_postgres_placeholders() {
    let q = list_audit_query(Dialect::Postgres, "org_1", None, Some("login"), None, Some(7), 25);
    assert_eq!(
        q.sql,
        "SELECT seq, ts, org_id, actor_member_id, action, detail, entry_hash FROM audit_log WHERE org_id = $1 AND action = $2 AND seq < $3 ORDER BY seq DESC LIMIT $4"
    );
    assert_eq!(
        q.params,
        vec![
            AuditParam::Text("org_1".to_string()),
            AuditParam::Text("login".to_string()),
            AuditParam::Int(7),
            AuditParam::Int(25),
        ]
    );
}
