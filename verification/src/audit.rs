//! The tamper-evident audit log: entry hashing, chain verification, appends
//! and sealing of a pruned prefix.

use vstd::prelude::*;
use crate::chain::{
    chain_intact, lemma_append_keeps_chain_intact, lemma_empty_chain_intact,
    lemma_seal_keeps_chain_intact, lemma_tampering_detected, lemma_unlinked_first_row_detected,
    lemma_broken_link_detected, links_of, verify_rows, ChainHead, ChainRow, HeadView, LinkView,
};
use crate::text::{ends_with, opt_text};
use crate::digest::{content_hash, hash_content, hex_digit, hex_digit_str};
use crate::sql::{marker, Dialect};

verus! {

/// An audit-log record (read model for the export portal).
#[derive(Debug, Clone, PartialEq, Eq)]
pub struct AuditRecord {
    pub seq: i64,
    pub ts: String,
    pub org_id: Option<String>,
    pub actor_member_id: Option<String>,
    pub action: String,
    pub detail: String,
    pub entry_hash: String,
}

/// A row to append to the tamper-evident audit log.
#[derive(Debug, Clone, PartialEq, Eq)]
pub struct AuditEntry {
    pub org_id: Option<String>,
    pub actor_member_id: Option<String>,
    pub action: String,
    pub detail: String,
}

/// A stored audit-log row, in log order, as the chain walk reads it.
#[derive(Debug, Clone, PartialEq, Eq)]
pub struct AuditLogRow {
    pub ts: String,
    pub org_id: Option<String>,
    pub actor_member_id: Option<String>,
    pub action: String,
    pub detail: String,
    pub prev_hash: String,
    pub entry_hash: String,
}

/// The text of an optional borrowed field in hash material.
pub open spec fn opt_str_text(o: Option<&str>) -> Seq<char> {
    match o {
        Some(s) => s@,
        None => Seq::empty(),
    }
}

/// The hash material of an audit entry:
/// `prev|ts|org_id|actor|action|detail`, absent optional fields as empty text.
pub open spec fn audit_material(
    prev: Seq<char>,
    ts: Seq<char>,
    org_id: Seq<char>,
    actor: Seq<char>,
    action: Seq<char>,
    detail: Seq<char>,
) -> Seq<char> {
    prev + seq!['|'] + ts + seq!['|'] + org_id + seq!['|'] + actor + seq!['|'] + action
        + seq!['|'] + detail
}

/// The hash of an audit entry: the content hash of its material.
pub open spec fn audit_hash_of(
    prev: Seq<char>,
    ts: Seq<char>,
    org_id: Seq<char>,
    actor: Seq<char>,
    action: Seq<char>,
    detail: Seq<char>,
) -> Seq<char> {
    content_hash(audit_material(prev, ts, org_id, actor, action, detail))
}

/// The hash a stored row's content recomputes to (over its stored `prev_hash`).
pub open spec fn row_recomputed_hash(r: AuditLogRow) -> Seq<char> {
    audit_hash_of(
        r.prev_hash@,
        r.ts@,
        opt_text(r.org_id),
        opt_text(r.actor_member_id),
        r.action@,
        r.detail@,
    )
}

/// A stored row as a chain link.
pub open spec fn audit_link(r: AuditLogRow) -> LinkView {
    LinkView { prev: r.prev_hash@, stored: r.entry_hash@, recomputed: row_recomputed_hash(r) }
}

/// The audit log as a chain.
pub open spec fn audit_links(rows: Seq<AuditLogRow>) -> Seq<LinkView> {
    rows.map_values(|r: AuditLogRow| audit_link(r))
}

/// The audit log is intact between the sealed checkpoint and the head.
pub open spec fn audit_log_intact(rows: Seq<AuditLogRow>, sealed: HeadView, head: HeadView) -> bool {
    chain_intact(audit_links(rows), sealed, head)
}

fn push_field(m: &mut String, field: &str)
    ensures
        final(m)@ == old(m)@ + seq!['|'] + field@,
{
    proof { reveal_strlit("|"); }
    assert("|"@ =~= seq!['|']);
    m.append("|");
    m.append(field);
}

fn opt_or_empty<'a>(o: Option<&'a str>) -> (s: &'a str)
    ensures
        s@ == opt_str_text(o),
{
    match o {
        Some(s) => s,
        None => {
            proof { reveal_strlit(""); }
            ""
        },
    }
}

/// Compute an audit entry hash over the previous hash and the entry fields.
pub fn audit_hash(
    prev: &str,
    ts: &str,
    org_id: Option<&str>,
    actor: Option<&str>,
    action: &str,
    detail: &str,
) -> (h: String)
    ensures
        h@ == audit_hash_of(prev@, ts@, opt_str_text(org_id), opt_str_text(actor), action@, detail@),
{
    let mut m = prev.to_owned();
    push_field(&mut m, ts);
    push_field(&mut m, opt_or_empty(org_id));
    push_field(&mut m, opt_or_empty(actor));
    push_field(&mut m, action);
    push_field(&mut m, detail);
    assert(m@ =~= audit_material(prev@, ts@, opt_str_text(org_id), opt_str_text(actor), action@, detail@));
    hash_content(m.as_str())
}

fn opt_as_str(o: &Option<String>) -> (r: Option<&str>)
    ensures
        opt_str_text(r) == opt_text(*o),
{
    match o {
        Some(s) => Some(s.as_str()),
        None => None,
    }
}

fn clone_opt(o: &Option<String>) -> (r: Option<String>)
    ensures
        r == *o,
{
    match o {
        Some(s) => Some(s.clone()),
        None => None,
    }
}

impl AuditLogRow {
    /// This row as a chain link: its stored hashes and the hash its content
    /// recomputes to.
    pub fn chain_row(&self) -> (r: ChainRow)
        ensures
            r@ == audit_link(*self),
    {
        let recomputed = audit_hash(
            self.prev_hash.as_str(),
            self.ts.as_str(),
            opt_as_str(&self.org_id),
            opt_as_str(&self.actor_member_id),
            self.action.as_str(),
            self.detail.as_str(),
        );
        ChainRow {
            prev_hash: self.prev_hash.clone(),
            stored_hash: self.entry_hash.clone(),
            recomputed_hash: recomputed,
        }
    }
}

/// Recompute the audit hash chain, seeded from the sealed checkpoint (genesis
/// when nothing was sealed), and report whether it is intact against the head.
pub fn verify_audit_log(rows: &Vec<AuditLogRow>, sealed: &ChainHead, head: &ChainHead) -> (ok: bool)
    ensures
        ok == audit_log_intact(rows@, sealed@, head@),
{
    let mut links: Vec<ChainRow> = Vec::new();
    let n = rows.len();
    for i in 0..n
        invariant
            n == rows@.len(),
            links@.len() == i,
            forall|j: int| 0 <= j < i ==> #[trigger] links@[j]@ == audit_link(rows@[j]),
    {
        links.push(rows[i].chain_row());
    }
    assert(links_of(links@) =~= audit_links(rows@));
    verify_rows(&links, sealed, head)
}

/// Append an entry stamped `ts` to the audit chain whose head is `head`: the
/// new row links to the old tip and carries the hash of its content, and the
/// head moves to that hash with one more entry.
pub fn append_audit_row(head: &mut ChainHead, ts: String, entry: &AuditEntry) -> (row: AuditLogRow)
    requires
        old(head).count < i64::MAX,
    ensures
        row.ts == ts,
        row.org_id == entry.org_id,
        row.actor_member_id == entry.actor_member_id,
        row.action == entry.action,
        row.detail == entry.detail,
        row.prev_hash@ == old(head).hash@,
        row.entry_hash@ == row_recomputed_hash(row),
        final(head)@ == old(head)@.linked(row.entry_hash@),
{
    let entry_hash = audit_hash(
        head.hash.as_str(),
        ts.as_str(),
        opt_as_str(&entry.org_id),
        opt_as_str(&entry.actor_member_id),
        entry.action.as_str(),
        entry.detail.as_str(),
    );
    let prev_hash = head.link(entry_hash.clone());
    AuditLogRow {
        ts,
        org_id: clone_opt(&entry.org_id),
        actor_member_id: clone_opt(&entry.actor_member_id),
        action: entry.action.clone(),
        detail: entry.detail.clone(),
        prev_hash,
        entry_hash,
    }
}

/// The sealed length after pruning: the chain length minus the rows retained
/// after the boundary.
pub fn sealed_count(entry_count: i64, retained_after: i64) -> (c: i64)
    requires
        i64::MIN <= entry_count - retained_after <= i64::MAX,
    ensures
        c == entry_count - retained_after,
{
    entry_count - retained_after
}

/// The sealed checkpoint that replaces a pruned prefix: the boundary entry's
/// hash and the number of entries up to and including it.
pub fn seal_checkpoint(boundary_hash: String, entry_count: i64, retained_after: i64) -> (c: ChainHead)
    requires
        i64::MIN <= entry_count - retained_after <= i64::MAX,
    ensures
        c.hash == boundary_hash,
        c.count == entry_count - retained_after,
{
    ChainHead { hash: boundary_hash, count: sealed_count(entry_count, retained_after) }
}

/// A log whose rows were each produced by appending to the previous tip
/// (starting from `start`): every row links to its predecessor and stores the
/// hash of its own content.
pub open spec fn appended_log(rows: Seq<AuditLogRow>, start: Seq<char>) -> bool {
    forall|i: int| 0 <= i < rows.len() ==> {
        &&& #[trigger] rows[i].prev_hash@ == (if i == 0 { start } else { rows[i - 1].entry_hash@ })
        &&& rows[i].entry_hash@ == row_recomputed_hash(rows[i])
    }
}

/// The head that appending `rows` to the checkpoint `base` leaves behind.
pub open spec fn head_after(rows: Seq<AuditLogRow>, base: HeadView) -> HeadView {
    HeadView {
        hash: if rows.len() == 0 { base.hash } else { rows.last().entry_hash@ },
        count: base.count + rows.len(),
    }
}

/// Appending keeps the audit log intact: a row produced by `append_audit_row`
/// on an intact log's head yields an intact log against the moved head.
pub proof fn lemma_audit_append_keeps_log_intact(
    rows: Seq<AuditLogRow>,
    sealed: HeadView,
    head: HeadView,
    row: AuditLogRow,
)
    requires
        audit_log_intact(rows, sealed, head),
        row.prev_hash@ == head.hash,
        row.entry_hash@ == row_recomputed_hash(row),
    ensures
        audit_log_intact(rows.push(row), sealed, head.linked(row.entry_hash@)),
{
    lemma_append_keeps_chain_intact(audit_links(rows), sealed, head, row.entry_hash@);
    assert(audit_links(rows.push(row)) =~= audit_links(rows).push(
        LinkView { prev: head.hash, stored: row.entry_hash@, recomputed: row.entry_hash@ },
    ));
}

/// Every audit log built by appends from a checkpoint verifies: rows appended
/// one after another from `base` are intact against the head the appends left.
pub proof fn lemma_appended_log_intact(rows: Seq<AuditLogRow>, base: HeadView)
    requires
        appended_log(rows, base.hash),
    ensures
        audit_log_intact(rows, base, head_after(rows, base)),
    decreases rows.len(),
{
    if rows.len() == 0 {
        lemma_empty_chain_intact(base);
        assert(audit_links(rows) =~= Seq::<LinkView>::empty());
    } else {
        let init = rows.drop_last();
        assert forall|i: int| 0 <= i < init.len() implies {
            &&& #[trigger] init[i].prev_hash@ == (if i == 0 { base.hash } else { init[i - 1].entry_hash@ })
            &&& init[i].entry_hash@ == row_recomputed_hash(init[i])
        } by {
            assert(init[i] == rows[i]);
        }
        lemma_appended_log_intact(init, base);
        let last = rows.last();
        assert(rows[rows.len() - 1].prev_hash@ == (if rows.len() - 1 == 0 { base.hash } else { rows[rows.len() - 2].entry_hash@ }));
        lemma_audit_append_keeps_log_intact(init, base, head_after(init, base), last);
        assert(init.push(last) =~= rows);
    }
}

/// Sealing keeps the audit log verifiable: pruning the first `k` rows of an
/// intact log and sealing at the boundary row (whose hash and the sealed
/// length `seal_checkpoint` computes from the head length and the number of
/// retained rows) leaves the retained rows intact against the same head.
pub proof fn lemma_audit_seal_keeps_log_intact(
    rows: Seq<AuditLogRow>,
    sealed: HeadView,
    head: HeadView,
    k: int,
)
    requires
        audit_log_intact(rows, sealed, head),
        0 < k <= rows.len(),
    ensures
        head.count - (rows.len() - k) == sealed.count + k,
        audit_log_intact(
            rows.skip(k),
            HeadView { hash: rows[k - 1].entry_hash@, count: head.count - (rows.len() - k) },
            head,
        ),
{
    lemma_seal_keeps_chain_intact(audit_links(rows), sealed, head, k);
    assert(audit_links(rows.skip(k)) =~= audit_links(rows).skip(k));
}


/// Two texts that differ stay different when the same text is put before and
/// after both.
proof fn lemma_frame_distinct(pre: Seq<char>, a: Seq<char>, b: Seq<char>, post: Seq<char>)
    requires
        a != b,
    ensures
        pre + a + post != pre + b + post,
{
    let x = pre + a + post;
    let y = pre + b + post;
    if a.len() == b.len() {
        if forall|k: int| 0 <= k < a.len() ==> a[k] == b[k] {
            assert(a =~= b);
        }
        let i = choose|i: int| 0 <= i < a.len() && a[i] != b[i];
        assert((pre + a)[pre.len() + i] == a[i]);
        assert((pre + b)[pre.len() + i] == b[i]);
        assert(x[pre.len() + i] == (pre + a)[pre.len() + i]);
        assert(y[pre.len() + i] == (pre + b)[pre.len() + i]);
    } else {
        assert(x.len() != y.len());
    }
}

/// The hash material covers every field of an entry: two entries that differ
/// in exactly one of the previous hash, the timestamp, the org, the actor, the
/// action or the detail have different material, so rewriting any one field
/// of a stored row changes what its content hashes.
pub proof fn lemma_audit_material_covers_each_field(
    p: Seq<char>, t: Seq<char>, o: Seq<char>, a: Seq<char>, x: Seq<char>, d: Seq<char>,
    p2: Seq<char>, t2: Seq<char>, o2: Seq<char>, a2: Seq<char>, x2: Seq<char>, d2: Seq<char>,
)
    ensures
        (p != p2 && t == t2 && o == o2 && a == a2 && x == x2 && d == d2)
            ==> audit_material(p, t, o, a, x, d) != audit_material(p2, t2, o2, a2, x2, d2),
        (p == p2 && t != t2 && o == o2 && a == a2 && x == x2 && d == d2)
            ==> audit_material(p, t, o, a, x, d) != audit_material(p2, t2, o2, a2, x2, d2),
        (p == p2 && t == t2 && o != o2 && a == a2 && x == x2 && d == d2)
            ==> audit_material(p, t, o, a, x, d) != audit_material(p2, t2, o2, a2, x2, d2),
        (p == p2 && t == t2 && o == o2 && a != a2 && x == x2 && d == d2)
            ==> audit_material(p, t, o, a, x, d) != audit_material(p2, t2, o2, a2, x2, d2),
        (p == p2 && t == t2 && o == o2 && a == a2 && x != x2 && d == d2)
            ==> audit_material(p, t, o, a, x, d) != audit_material(p2, t2, o2, a2, x2, d2),
        (p == p2 && t == t2 && o == o2 && a == a2 && x == x2 && d != d2)
            ==> audit_material(p, t, o, a, x, d) != audit_material(p2, t2, o2, a2, x2, d2),
{
    let bar = seq!['|'];
    let e = Seq::<char>::empty();
    let m1 = audit_material(p, t, o, a, x, d);
    let m2 = audit_material(p2, t2, o2, a2, x2, d2);
    if p != p2 && t == t2 && o == o2 && a == a2 && x == x2 && d == d2 {
        let post = bar + t + bar + o + bar + a + bar + x + bar + d;
        lemma_frame_distinct(e, p, p2, post);
        assert(m1 =~= e + p + post);
        assert(m2 =~= e + p2 + post);
    }
    if p == p2 && t != t2 && o == o2 && a == a2 && x == x2 && d == d2 {
        let pre = p + bar;
        let post = bar + o + bar + a + bar + x + bar + d;
        lemma_frame_distinct(pre, t, t2, post);
        assert(m1 =~= pre + t + post);
        assert(m2 =~= pre + t2 + post);
    }
    if p == p2 && t == t2 && o != o2 && a == a2 && x == x2 && d == d2 {
        let pre = p + bar + t + bar;
        let post = bar + a + bar + x + bar + d;
        lemma_frame_distinct(pre, o, o2, post);
        assert(m1 =~= pre + o + post);
        assert(m2 =~= pre + o2 + post);
    }
    if p == p2 && t == t2 && o == o2 && a != a2 && x == x2 && d == d2 {
        let pre = p + bar + t + bar + o + bar;
        let post = bar + x + bar + d;
        lemma_frame_distinct(pre, a, a2, post);
        assert(m1 =~= pre + a + post);
        assert(m2 =~= pre + a2 + post);
    }
    if p == p2 && t == t2 && o == o2 && a == a2 && x != x2 && d == d2 {
        let pre = p + bar + t + bar + o + bar + a + bar;
        let post = bar + d;
        lemma_frame_distinct(pre, x, x2, post);
        assert(m1 =~= pre + x + post);
        assert(m2 =~= pre + x2 + post);
    }
    if p == p2 && t == t2 && o == o2 && a == a2 && x == x2 && d != d2 {
        let pre = p + bar + t + bar + o + bar + a + bar + x + bar;
        lemma_frame_distinct(pre, d, d2, e);
        assert(m1 =~= pre + d + e);
        assert(m2 =~= pre + d2 + e);
    }
}

/// Every stored row is re-hashed, with no exemption: if any row's stored
/// `entry_hash` is not the audit hash of that row's own stored content (its
/// `prev_hash`, timestamp, org, actor, action and detail), the audit log does
/// not verify, whatever the checkpoints.
pub proof fn lemma_audit_row_rehashed(
    rows: Seq<AuditLogRow>,
    sealed: HeadView,
    head: HeadView,
    i: int,
)
    requires
        0 <= i < rows.len(),
        rows[i].entry_hash@ != audit_hash_of(
            rows[i].prev_hash@,
            rows[i].ts@,
            opt_text(rows[i].org_id),
            opt_text(rows[i].actor_member_id),
            rows[i].action@,
            rows[i].detail@,
        ),
    ensures
        !audit_log_intact(rows, sealed, head),
{
    let links = audit_links(rows);
    assert(links[i] == audit_link(rows[i]));
    lemma_tampering_detected(links, sealed, head, i);
}

/// Every audit-log row links to the hash before it: a first row whose
/// `prev_hash` is not the sealed tip (the empty hash from genesis), or a later
/// row whose `prev_hash` is not its predecessor's `entry_hash`, is detected.
pub proof fn lemma_audit_row_links_checked(
    rows: Seq<AuditLogRow>,
    sealed: HeadView,
    head: HeadView,
    i: int,
)
    requires
        0 <= i < rows.len(),
        rows[i].prev_hash@ != (if i == 0 { sealed.hash } else { rows[i - 1].entry_hash@ }),
    ensures
        !audit_log_intact(rows, sealed, head),
{
    let links = audit_links(rows);
    assert(links[i] == audit_link(rows[i]));
    if i == 0 {
        lemma_unlinked_first_row_detected(links, sealed, head);
    } else {
        assert(links[i - 1] == audit_link(rows[i - 1]));
        lemma_broken_link_detected(links, sealed, head, i);
    }
}

/// A bound parameter of the audit listing query.
#[derive(Debug, Clone, PartialEq, Eq)]
pub enum AuditParam {
    Text(String),
    Int(i64),
}

/// The value of a bound parameter.
pub enum AuditParamView {
    Text(Seq<char>),
    Int(i64),
}

impl View for AuditParam {
    type V = AuditParamView;

    open spec fn view(&self) -> AuditParamView {
        match self {
            AuditParam::Text(s) => AuditParamView::Text(s@),
            AuditParam::Int(i) => AuditParamView::Int(*i),
        }
    }
}

/// The audit listing query: SQL text whose `k`-th numbered placeholder binds
/// `params[k-1]`.
pub struct AuditListQuery {
    pub sql: String,
    pub params: Vec<AuditParam>,
}

/// The tenant-scoped head of the audit listing query, before the org id's
/// placeholder.
pub open spec fn audit_list_base_sql() -> Seq<char> {
    "SELECT seq, ts, org_id, actor_member_id, action, detail, entry_hash FROM audit_log WHERE org_id = "@
}

/// A clause text followed by the placeholder numbered `n` (a single digit).
pub open spec fn numbered(clause: Seq<char>, d: Dialect, n: int) -> Seq<char> {
    clause + seq![marker(d), hex_digit(n)]
}

/// The query state after an optional filter: the clause, numbered with the
/// next placeholder, and its parameter are added when the filter is present.
pub open spec fn add_filter(
    q: (Seq<char>, Seq<AuditParamView>),
    d: Dialect,
    clause: Seq<char>,
    value: Option<AuditParamView>,
) -> (Seq<char>, Seq<AuditParamView>) {
    match value {
        Some(v) => (q.0 + numbered(clause, d, q.1.len() + 1int), q.1.push(v)),
        None => q,
    }
}

/// The optional text value of a filter.
pub open spec fn text_param(o: Option<&str>) -> Option<AuditParamView> {
    match o {
        Some(s) => Some(AuditParamView::Text(s@)),
        None => None,
    }
}

/// The audit listing query for an org: filters by actor, action, earliest
/// timestamp and a `seq` cursor, each only when given and each as a bound
/// parameter numbered in order, newest first, at most `limit` rows.
pub open spec fn audit_list_query(
    d: Dialect,
    org_id: Seq<char>,
    actor: Option<&str>,
    action: Option<&str>,
    since: Option<&str>,
    before_seq: Option<i64>,
    limit: u32,
) -> (Seq<char>, Seq<AuditParamView>) {
    let q0 = (numbered(audit_list_base_sql(), d, 1), seq![AuditParamView::Text(org_id)]);
    let q1 = add_filter(q0, d, " AND actor_member_id = "@, text_param(actor));
    let q2 = add_filter(q1, d, " AND action = "@, text_param(action));
    let q3 = add_filter(q2, d, " AND ts >= "@, text_param(since));
    let q4 = add_filter(
        q3,
        d,
        " AND seq < "@,
        match before_seq {
            Some(c) => Some(AuditParamView::Int(c)),
            None => None,
        },
    );
    (
        q4.0 + numbered(" ORDER BY seq DESC LIMIT "@, d, q4.1.len() + 1int),
        q4.1.push(AuditParamView::Int(limit as i64)),
    )
}

fn push_numbered(sql: &mut String, clause: &str, d: Dialect, n: usize)
    requires
        n < 10,
    ensures
        final(sql)@ == old(sql)@ + numbered(clause@, d, n as int),
{
    sql.append(clause);
    sql.append(d.marker_str());
    sql.append(hex_digit_str(n as u8));
    assert(final(sql)@ =~= old(sql)@ + numbered(clause@, d, n as int));
}

/// Build the audit listing query for a backend. Every filter is a bound
/// parameter, so there is no injection surface, and the first parameter (the
/// org id) keeps the listing tenant-scoped.
pub fn list_audit_query(
    d: Dialect,
    org_id: &str,
    actor: Option<&str>,
    action: Option<&str>,
    since: Option<&str>,
    before_seq: Option<i64>,
    limit: u32,
) -> (q: AuditListQuery)
    ensures
        (q.sql@, q.params@.map_values(|p: AuditParam| p@))
            == audit_list_query(d, org_id@, actor, action, since, before_seq, limit),
{
    let mut sql = String::new();
    let mut params: Vec<AuditParam> = Vec::new();
    params.push(AuditParam::Text(org_id.to_owned()));
    push_numbered(
        &mut sql,
        "SELECT seq, ts, org_id, actor_member_id, action, detail, entry_hash FROM audit_log WHERE org_id = ",
        d,
        params.len(),
    );
    let ghost q0 = (numbered(audit_list_base_sql(), d, 1), seq![AuditParamView::Text(org_id@)]);
    assert(sql@ =~= q0.0);
    assert(params@.map_values(|p: AuditParam| p@) =~= q0.1);
    if let Some(a) = actor {
        params.push(AuditParam::Text(a.to_owned()));
        push_numbered(&mut sql, " AND actor_member_id = ", d, params.len());
    }
    let ghost q1 = add_filter(q0, d, " AND actor_member_id = "@, text_param(actor));
    assert(sql@ =~= q1.0);
    assert(params@.map_values(|p: AuditParam| p@) =~= q1.1);
    if let Some(a) = action {
        params.push(AuditParam::Text(a.to_owned()));
        push_numbered(&mut sql, " AND action = ", d, params.len());
    }
    let ghost q2 = add_filter(q1, d, " AND action = "@, text_param(action));
    assert(sql@ =~= q2.0);
    assert(params@.map_values(|p: AuditParam| p@) =~= q2.1);
    if let Some(s) = since {
        params.push(AuditParam::Text(s.to_owned()));
        push_numbered(&mut sql, " AND ts >= ", d, params.len());
    }
    let ghost q3 = add_filter(q2, d, " AND ts >= "@, text_param(since));
    assert(sql@ =~= q3.0);
    assert(params@.map_values(|p: AuditParam| p@) =~= q3.1);
    if let Some(c) = before_seq {
        params.push(AuditParam::Int(c));
        push_numbered(&mut sql, " AND seq < ", d, params.len());
    }
    let ghost q4 = add_filter(
        q3,
        d,
        " AND seq < "@,
        match before_seq {
            Some(c) => Some(AuditParamView::Int(c)),
            None => None,
        },
    );
    assert(sql@ =~= q4.0);
    assert(params@.map_values(|p: AuditParam| p@) =~= q4.1);
    params.push(AuditParam::Int(limit as i64));
    push_numbered(&mut sql, " ORDER BY seq DESC LIMIT ", d, params.len());
    assert(params@.map_values(|p: AuditParam| p@) =~= q4.1.push(AuditParamView::Int(limit as i64)));
    AuditListQuery { sql, params }
}

/// The tail that ends every audit listing: newest first, then the limit bound
/// to the last placeholder.
pub open spec fn newest_first_tail(d: Dialect, n: int) -> Seq<char> {
    " ORDER BY seq DESC LIMIT "@ + seq![marker(d), hex_digit(n)]
}

/// Whatever the dialect and filters, the audit listing is tenant-scoped,
/// newest first and limited: the first parameter is the org id, the last is
/// the limit, there is one more parameter than there are filters, and the text
/// ends with `ORDER BY seq DESC LIMIT` and the last parameter's placeholder.
pub proof fn lemma_audit_listing_newest_first(
    d: Dialect,
    org_id: Seq<char>,
    actor: Option<&str>,
    action: Option<&str>,
    since: Option<&str>,
    before_seq: Option<i64>,
    limit: u32,
)
    ensures
        ({
            let q = audit_list_query(d, org_id, actor, action, since, before_seq, limit);
            &&& q.1.len() == 2 + (if actor is Some { 1int } else { 0 }) + (if action is Some { 1int } else { 0 })
                + (if since is Some { 1int } else { 0 }) + (if before_seq is Some { 1int } else { 0 })
            &&& q.1[0] == AuditParamView::Text(org_id)
            &&& q.1.last() == AuditParamView::Int(limit as i64)
            &&& ends_with(q.0, newest_first_tail(d, q.1.len() as int))
        }),
{
    let q = audit_list_query(d, org_id, actor, action, since, before_seq, limit);
    let tail = newest_first_tail(d, q.1.len() as int);
    assert(q.0.subrange(q.0.len() - tail.len(), q.0.len() as int) =~= tail);
}

} // verus!
