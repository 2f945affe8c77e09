use tellur_storage::chain::{verify_rows, ChainHead, ChainRow, HeadRef};
use tellur_storage::sql::Dialect;

fn row(prev: &str, stored: &str, recomputed: &str) -> ChainRow {
    ChainRow {
        prev_hash: prev.to_string(),
        stored_hash: stored.to_string(),
        recomputed_hash: recomputed.to_string(),
    }
}

/// Build a chain of `hashes` from `base` the way an append does, returning the
/// stored rows and the resulting head.
fn build(base: &ChainHead, hashes: &[&str]) -> (Vec<ChainRow>, ChainHead) {
    let mut head = base.clone();
    let mut rows = Vec::new();
    for h in hashes {
        let prev = head.link(h.to_string());
        rows.push(row(&prev, h, h));
    }
    (rows, head)
}

#[test]
fn genesis_head_is_empty_and_from_missing_row() {
    let g = ChainHead::genesis();
    assert_eq!(g.hash, "");
    assert_eq!(g.count, 0);
    assert_eq!(ChainHead::from_row(None), g);
    let h = ChainHead::from_row(Some(("abc".to_string(), 7)));
    assert_eq!(h.hash, "abc");
    assert_eq!(h.count, 7);
}

#[test]
fn empty_chain_verifies_against_genesis() {
    let g = ChainHead::genesis();
    assert!(verify_rows(&Vec::new(), &g, &g));
}

#[test]
fn empty_chain_fails_against_nonempty_head() {
    let g = ChainHead::genesis();
    let head = ChainHead { hash: "h1".to_string(), count: 1 };
    assert!(!verify_rows(&Vec::new(), &g, &head));
}

#[test]
fn link_returns_old_tip_and_moves_head() {
    let mut head = ChainHead::genesis();
    assert_eq!(head.prev_for_hash(), None);
    let prev = head.link("h1".to_string());
    assert_eq!(prev, "");
    assert_eq!(head, ChainHead { hash: "h1".to_string(), count: 1 });
    assert_eq!(head.prev_for_hash(), Some("h1".to_string()));
    let prev = head.link("h2".to_string());
    assert_eq!(prev, "h1");
    assert_eq!(head.count, 2);
}

#[test]
fn appended_chain_verifies() {
    let g = ChainHead::genesis();
    let (rows, head) = build(&g, &["h1", "h2", "h3"]);
    assert_eq!(head, ChainHead { hash: "h3".to_string(), count: 3 });
    assert!(verify_rows(&rows, &g, &head));
}

#[test]
fn tail_truncation_is_detected() {
    let g = ChainHead::genesis();
    let (mut rows, head) = build(&g, &["h1", "h2", "h3"]);
    rows.pop();
    assert!(!verify_rows(&rows, &g, &head));
    rows.clear();
    assert!(!verify_rows(&rows, &g, &head));
}

#[test]
fn tampered_row_is_detected() {
    let g = ChainHead::genesis();
    let (mut rows, head) = build(&g, &["h1", "h2", "h3"]);
    rows[1].recomputed_hash = "other".to_string();
    assert!(!verify_rows(&rows, &g, &head));
}

#[test]
fn removed_middle_row_is_detected() {
    let g = ChainHead::genesis();
    let (mut rows, _) = build(&g, &["h1", "h2", "h3"]);
    rows.remove(1);
    let head = ChainHead { hash: "h3".to_string(), count: 2 };
    assert!(!verify_rows(&rows, &g, &head));
}

#[test]
fn wrong_head_length_is_detected() {
    let g = ChainHead::genesis();
    let (rows, _) = build(&g, &["h1", "h2"]);
    let head = ChainHead { hash: "h2".to_string(), count: 3 };
    assert!(!verify_rows(&rows, &g, &head));
}

#[test]
fn sealed_prefix_keeps_chain_verifiable() {
    let g = ChainHead::genesis();
    let (rows, head) = build(&g, &["h1", "h2", "h3", "h4"]);
    let retained: Vec<ChainRow> = rows[2..].to_vec();
    let sealed = ChainHead { hash: "h2".to_string(), count: 2 };
    assert!(verify_rows(&retained, &sealed, &head));
    // Seeding from genesis no longer matches the retained rows.
    assert!(!verify_rows(&retained, &g, &head));
    // Truncation after a seal is still detected.
    let cut: Vec<ChainRow> = rows[2..3].to_vec();
    assert!(!verify_rows(&cut, &sealed, &head));
}

#[test]
fn head_ref_selects_fixed_sql() {
    let a = HeadRef::Audit(1);
    let e = HeadRef::Event("repo_1".to_string());
    assert_eq!(
        a.read_sql(Dialect::Sqlite),
        "SELECT head_hash, entry_count FROM audit_head WHERE id = ?1"
    );
    assert_eq!(
        e.read_sql(Dialect::Sqlite),
        "SELECT head_hash, entry_count FROM event_head WHERE repo_id = ?1"
    );
    assert_eq!(
        e.read_sql(Dialect::Postgres),
        "SELECT head_hash, entry_count FROM event_head WHERE repo_id = $1"
    );
    assert!(a.upsert_sql(Dialect::Sqlite).starts_with("INSERT INTO audit_head"));
    assert!(e.upsert_sql(Dialect::Sqlite).starts_with("INSERT INTO event_head"));
    assert!(a
        .upsert_sql(Dialect::Postgres)
        .starts_with("INSERT INTO audit_head (id, head_hash, entry_count) VALUES ($1, $2, $3)"));
    // The key never reaches the query text.
    let e2 = HeadRef::Event("x'; DROP TABLE event; --".to_string());
    assert_eq!(e.read_sql(Dialect::Sqlite), e2.read_sql(Dialect::Sqlite));
    assert_eq!(e.upsert_sql(Dialect::Postgres), e2.upsert_sql(Dialect::Postgres));
}
