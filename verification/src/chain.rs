//! Tamper-evident hash chains with a persisted head checkpoint.
//!
//! The audit log and each repo's event log are append-only chains: every row
//! stores the hash of its predecessor (`prev_hash`) and its own hash
//! (`entry_hash`). Alongside the rows a single head checkpoint records the tip
//! hash and the chain length, so a chain cut back to an earlier prefix no
//! longer matches its head. A walk may start from a sealed checkpoint (the tip
//! and length of a pruned prefix) instead of genesis.

use vstd::prelude::*;

use crate::sql::Dialect;
use crate::text::ends_with;

verus! {

/// A chain head checkpoint: the tip hash and the number of entries behind it.
/// Genesis is `("", 0)`.
#[derive(Debug, Clone, PartialEq, Eq)]
pub struct ChainHead {
    pub hash: String,
    pub count: i64,
}

/// The mathematical value of a head checkpoint.
pub struct HeadView {
    pub hash: Seq<char>,
    pub count: int,
}

impl HeadView {
    /// The head after one more entry with hash `entry` is appended.
    pub open spec fn linked(self, entry: Seq<char>) -> HeadView {
        HeadView { hash: entry, count: self.count + 1 }
    }

    /// The genesis head `("", 0)`.
    pub open spec fn genesis() -> HeadView {
        HeadView { hash: Seq::empty(), count: 0 }
    }
}

impl View for ChainHead {
    type V = HeadView;

    open spec fn view(&self) -> HeadView {
        HeadView { hash: self.hash@, count: self.count as int }
    }
}

impl ChainHead {
    /// The genesis head: empty tip hash and no entries.
    pub fn genesis() -> (h: ChainHead)
        ensures
            h@ == HeadView::genesis(),
    {
        ChainHead { hash: String::new(), count: 0 }
    }

    /// The head stored in a checkpoint row, or genesis when there is no row.
    pub fn from_row(row: Option<(String, i64)>) -> (h: ChainHead)
        ensures
            match row {
                Some((hash, count)) => h.hash == hash && h.count == count,
                None => h@ == HeadView::genesis(),
            },
    {
        match row {
            Some((hash, count)) => ChainHead { hash, count },
            None => ChainHead::genesis(),
        }
    }

    /// The previous-hash argument that a new entry's hash is computed over:
    /// `None` at genesis (empty tip), otherwise the tip hash.
    pub fn prev_for_hash(&self) -> (p: Option<String>)
        ensures
            match p {
                None => self.hash@.len() == 0,
                Some(h) => self.hash@.len() > 0 && h@ == self.hash@,
            },
    {
        if self.hash.as_str().is_empty() {
            None
        } else {
            Some(self.hash.clone())
        }
    }

    /// Append one entry with hash `entry_hash` to the chain this head describes.
    /// Returns the hash the new entry must store as its `prev_hash` (the old tip);
    /// the head moves to the new entry and its length grows by one.
    pub fn link(&mut self, entry_hash: String) -> (prev: String)
        requires
            old(self).count < i64::MAX,
        ensures
            prev@ == old(self).hash@,
            final(self)@ == old(self)@.linked(entry_hash@),
    {
        let mut prev = entry_hash;
        std::mem::swap(&mut prev, &mut self.hash);
        self.count = self.count + 1;
        prev
    }
}

/// One chain row as a walk sees it: the stored `prev_hash`, the stored
/// `entry_hash`, and the hash recomputed from the row's content.
#[derive(Debug, Clone, PartialEq, Eq)]
pub struct ChainRow {
    pub prev_hash: String,
    pub stored_hash: String,
    pub recomputed_hash: String,
}

/// The mathematical value of a chain row.
pub struct LinkView {
    pub prev: Seq<char>,
    pub stored: Seq<char>,
    pub recomputed: Seq<char>,
}

impl View for ChainRow {
    type V = LinkView;

    open spec fn view(&self) -> LinkView {
        LinkView {
            prev: self.prev_hash@,
            stored: self.stored_hash@,
            recomputed: self.recomputed_hash@,
        }
    }
}

/// The rows of a chain, by value.
pub open spec fn links_of(rows: Seq<ChainRow>) -> Seq<LinkView> {
    rows.map_values(|r: ChainRow| r@)
}

/// The hash a row at position `i` must link to: the walk's starting hash for
/// the first row, else the previous row's stored hash.
pub open spec fn expected_prev(links: Seq<LinkView>, start: Seq<char>, i: int) -> Seq<char> {
    if i == 0 { start } else { links[i - 1].stored }
}

/// Row `i` links to its predecessor and its stored hash matches its content.
pub open spec fn link_ok(links: Seq<LinkView>, start: Seq<char>, i: int) -> bool {
    &&& links[i].prev == expected_prev(links, start, i)
    &&& links[i].recomputed == links[i].stored
}

/// Every row links correctly.
pub open spec fn links_ok(links: Seq<LinkView>, start: Seq<char>) -> bool {
    forall|i: int| 0 <= i < links.len() ==> #[trigger] link_ok(links, start, i)
}

/// The tip a walk ends on: the last row's stored hash, or the start when empty.
pub open spec fn chain_tip(links: Seq<LinkView>, start: Seq<char>) -> Seq<char> {
    if links.len() == 0 { start } else { links.last().stored }
}

/// A chain is intact against a base checkpoint and a head checkpoint when every
/// row links to its predecessor (the first to the base tip) with a hash that
/// matches its content, the base length plus the rows walked equals the head
/// length, and the walk ends on the head's tip hash.
pub open spec fn chain_intact(links: Seq<LinkView>, base: HeadView, head: HeadView) -> bool {
    &&& links_ok(links, base.hash)
    &&& base.count + links.len() == head.count
    &&& chain_tip(links, base.hash) == head.hash
}

/// Walk ordered chain rows from the `base` checkpoint and compare the walked
/// length and tip against the `head` checkpoint. `false` on any break: a bad
/// link, a hash mismatch, or a length/tip mismatch (truncation or rollback).
pub fn verify_rows(rows: &Vec<ChainRow>, base: &ChainHead, head: &ChainHead) -> (ok: bool)
    ensures
        ok == chain_intact(links_of(rows@), base@, head@),
{
    let ghost links = links_of(rows@);
    let mut expected: &String = &base.hash;
    let n = rows.len();
    for i in 0..n
        invariant
            n == rows@.len(),
            links == links_of(rows@),
            expected@ == expected_prev(links, base.hash@, i as int),
            forall|j: int| 0 <= j < i ==> #[trigger] link_ok(links, base.hash@, j),
    {
        let row = &rows[i];
        if !(row.prev_hash == *expected) || !(row.recomputed_hash == row.stored_hash) {
            assert(!link_ok(links, base.hash@, i as int));
            return false;
        }
        expected = &row.stored_hash;
    }
    let walked = (n as i128) + (base.count as i128);
    walked == (head.count as i128) && *expected == head.hash
}

/// An empty chain is intact between two equal checkpoints.
pub proof fn lemma_empty_chain_intact(base: HeadView)
    ensures
        chain_intact(Seq::empty(), base, base),
{
}

/// Appending keeps a chain intact: if `links` is intact up to `head`, the chain
/// extended by an entry whose stored and recomputed hash is `entry` and whose
/// `prev_hash` is the old tip is intact up to `head.linked(entry)`.
pub proof fn lemma_append_keeps_chain_intact(
    links: Seq<LinkView>,
    base: HeadView,
    head: HeadView,
    entry: Seq<char>,
)
    requires
        chain_intact(links, base, head),
    ensures
        chain_intact(
            links.push(LinkView { prev: head.hash, stored: entry, recomputed: entry }),
            base,
            head.linked(entry),
        ),
{
    let ext = links.push(LinkView { prev: head.hash, stored: entry, recomputed: entry });
    assert forall|i: int| 0 <= i < ext.len() implies #[trigger] link_ok(ext, base.hash, i) by {
        if i < links.len() {
            assert(link_ok(links, base.hash, i));
        }
    }
}

/// Tail truncation is detected: cutting an intact chain back to a strict prefix
/// while the head checkpoint stays put breaks integrity.
pub proof fn lemma_truncation_detected(
    links: Seq<LinkView>,
    base: HeadView,
    head: HeadView,
    keep: int,
)
    requires
        chain_intact(links, base, head),
        0 <= keep < links.len(),
    ensures
        !chain_intact(links.take(keep), base, head),
{
}

/// Tampering is detected: a row whose content no longer hashes to its stored
/// hash makes the chain fail verification, whatever the checkpoints.
pub proof fn lemma_tampering_detected(
    links: Seq<LinkView>,
    base: HeadView,
    head: HeadView,
    i: int,
)
    requires
        0 <= i < links.len(),
        links[i].recomputed != links[i].stored,
    ensures
        !chain_intact(links, base, head),
{
    assert(!link_ok(links, base.hash, i));
}

/// A chain whose first row does not link to the base checkpoint's tip is
/// detected: after a seal, the first retained row must store the sealed tip as
/// its `prev_hash`, and from genesis the first row must store the empty hash.
pub proof fn lemma_unlinked_first_row_detected(
    links: Seq<LinkView>,
    base: HeadView,
    head: HeadView,
)
    requires
        0 < links.len(),
        links[0].prev != base.hash,
    ensures
        !chain_intact(links, base, head),
{
    assert(!link_ok(links, base.hash, 0));
}

/// Every row of an intact chain links to the hash before it: the first to the
/// base tip, each later one to its predecessor's stored hash; and every row's
/// content recomputes to its stored hash.
pub proof fn lemma_intact_chain_links(links: Seq<LinkView>, base: HeadView, head: HeadView, i: int)
    requires
        chain_intact(links, base, head),
        0 <= i < links.len(),
    ensures
        i == 0 ==> links[i].prev == base.hash,
        i > 0 ==> links[i].prev == links[i - 1].stored,
        links[i].recomputed == links[i].stored,
        links.len() == head.count - base.count,
        head.hash == links.last().stored,
{
    assert(link_ok(links, base.hash, i));
}

/// A relinked row is detected: a row whose `prev_hash` is not its
/// predecessor's stored hash (for example, after a row in the middle was
/// removed) makes the chain fail verification.
pub proof fn lemma_broken_link_detected(
    links: Seq<LinkView>,
    base: HeadView,
    head: HeadView,
    i: int,
)
    requires
        0 < i < links.len(),
        links[i].prev != links[i - 1].stored,
    ensures
        !chain_intact(links, base, head),
{
    assert(!link_ok(links, base.hash, i));
}

/// Sealing keeps a chain verifiable: pruning the first `k` rows of an intact
/// chain and moving the base checkpoint to the pruned prefix's tip and length
/// leaves the retained rows intact against the same head.
pub proof fn lemma_seal_keeps_chain_intact(
    links: Seq<LinkView>,
    base: HeadView,
    head: HeadView,
    k: int,
)
    requires
        chain_intact(links, base, head),
        0 < k <= links.len(),
    ensures
        chain_intact(
            links.skip(k),
            HeadView { hash: links[k - 1].stored, count: base.count + k },
            head,
        ),
{
    let rest = links.skip(k);
    let sealed = links[k - 1].stored;
    assert forall|i: int| 0 <= i < rest.len() implies #[trigger] link_ok(rest, sealed, i) by {
        assert(link_ok(links, base.hash, i + k));
    }
}

/// Locates one of the two chain head checkpoint rows. The SQL is chosen by the
/// variant and the backend; callers provide only the bound key value and never
/// the query text.
#[derive(Debug, Clone, PartialEq, Eq)]
pub enum HeadRef {
    /// The audit chain head, keyed by its single-row id.
    Audit(i64),
    /// A repo's event chain head, keyed by the repo id.
    Event(String),
}

/// Query text that reads a chain head, binding the key as the first parameter.
pub open spec fn head_read_sql(head: HeadRef, d: Dialect) -> Seq<char> {
    match (head, d) {
        (HeadRef::Audit(_), Dialect::Sqlite) => "SELECT head_hash, entry_count FROM audit_head WHERE id = ?1"@,
        (HeadRef::Event(_), Dialect::Sqlite) => "SELECT head_hash, entry_count FROM event_head WHERE repo_id = ?1"@,
        (HeadRef::Audit(_), Dialect::Postgres) => "SELECT head_hash, entry_count FROM audit_head WHERE id = $1"@,
        (HeadRef::Event(_), Dialect::Postgres) => "SELECT head_hash, entry_count FROM event_head WHERE repo_id = $1"@,
    }
}

/// Statement text that inserts or replaces a chain head, binding the key, the
/// tip hash and the length as the first three parameters.
pub open spec fn head_upsert_sql(head: HeadRef, d: Dialect) -> Seq<char> {
    match (head, d) {
        (HeadRef::Audit(_), Dialect::Sqlite) => "INSERT INTO audit_head (id, head_hash, entry_count) VALUES (?1, ?2, ?3) ON CONFLICT(id) DO UPDATE SET head_hash = excluded.head_hash, entry_count = excluded.entry_count"@,
        (HeadRef::Event(_), Dialect::Sqlite) => "INSERT INTO event_head (repo_id, head_hash, entry_count) VALUES (?1, ?2, ?3) ON CONFLICT(repo_id) DO UPDATE SET head_hash = excluded.head_hash, entry_count = excluded.entry_count"@,
        (HeadRef::Audit(_), Dialect::Postgres) => "INSERT INTO audit_head (id, head_hash, entry_count) VALUES ($1, $2, $3) ON CONFLICT (id) DO UPDATE SET head_hash = excluded.head_hash, entry_count = excluded.entry_count"@,
        (HeadRef::Event(_), Dialect::Postgres) => "INSERT INTO event_head (repo_id, head_hash, entry_count) VALUES ($1, $2, $3) ON CONFLICT (repo_id) DO UPDATE SET head_hash = excluded.head_hash, entry_count = excluded.entry_count"@,
    }
}

/// What every head upsert does to an existing head row: it replaces both the
/// tip hash and the length with the bound values.
pub open spec fn head_upsert_update_clause() -> Seq<char> {
    " DO UPDATE SET head_hash = excluded.head_hash, entry_count = excluded.entry_count"@
}

/// Every head upsert, for both heads and in both dialects, overwrites both
/// checkpoint columns on conflict, so a head never keeps a stale length.
pub proof fn lemma_head_upsert_sets_hash_and_length(head: HeadRef, d: Dialect)
    ensures
        ends_with(head_upsert_sql(head, d), head_upsert_update_clause()),
{
    reveal_strlit(" DO UPDATE SET head_hash = excluded.head_hash, entry_count = excluded.entry_count");
    let sql = head_upsert_sql(head, d);
    let suf = head_upsert_update_clause();
    match (head, d) {
        (HeadRef::Audit(_), Dialect::Sqlite) => {
            reveal_strlit("INSERT INTO audit_head (id, head_hash, entry_count) VALUES (?1, ?2, ?3) ON CONFLICT(id) DO UPDATE SET head_hash = excluded.head_hash, entry_count = excluded.entry_count");
        },
        (HeadRef::Event(_), Dialect::Sqlite) => {
            reveal_strlit("INSERT INTO event_head (repo_id, head_hash, entry_count) VALUES (?1, ?2, ?3) ON CONFLICT(repo_id) DO UPDATE SET head_hash = excluded.head_hash, entry_count = excluded.entry_count");
        },
        (HeadRef::Audit(_), Dialect::Postgres) => {
            reveal_strlit("INSERT INTO audit_head (id, head_hash, entry_count) VALUES ($1, $2, $3) ON CONFLICT (id) DO UPDATE SET head_hash = excluded.head_hash, entry_count = excluded.entry_count");
        },
        (HeadRef::Event(_), Dialect::Postgres) => {
            reveal_strlit("INSERT INTO event_head (repo_id, head_hash, entry_count) VALUES ($1, $2, $3) ON CONFLICT (repo_id) DO UPDATE SET head_hash = excluded.head_hash, entry_count = excluded.entry_count");
        },
    }
    assert(sql.subrange(sql.len() - suf.len(), sql.len() as int) =~= suf);
}

impl HeadRef {
    /// The query that reads this head.
    pub fn read_sql(&self, d: Dialect) -> (sql: &'static str)
        ensures
            sql@ == head_read_sql(*self, d),
    {
        match (self, d) {
            (HeadRef::Audit(_), Dialect::Sqlite) => "SELECT head_hash, entry_count FROM audit_head WHERE id = ?1",
            (HeadRef::Event(_), Dialect::Sqlite) => "SELECT head_hash, entry_count FROM event_head WHERE repo_id = ?1",
            (HeadRef::Audit(_), Dialect::Postgres) => "SELECT head_hash, entry_count FROM audit_head WHERE id = $1",
            (HeadRef::Event(_), Dialect::Postgres) => "SELECT head_hash, entry_count FROM event_head WHERE repo_id = $1",
        }
    }

    /// The statement that inserts or replaces this head.
    pub fn upsert_sql(&self, d: Dialect) -> (sql: &'static str)
        ensures
            sql@ == head_upsert_sql(*self, d),
    {
        match (self, d) {
            (HeadRef::Audit(_), Dialect::Sqlite) => "INSERT INTO audit_head (id, head_hash, entry_count) VALUES (?1, ?2, ?3) ON CONFLICT(id) DO UPDATE SET head_hash = excluded.head_hash, entry_count = excluded.entry_count",
            (HeadRef::Event(_), Dialect::Sqlite) => "INSERT INTO event_head (repo_id, head_hash, entry_count) VALUES (?1, ?2, ?3) ON CONFLICT(repo_id) DO UPDATE SET head_hash = excluded.head_hash, entry_count = excluded.entry_count",
            (HeadRef::Audit(_), Dialect::Postgres) => "INSERT INTO audit_head (id, head_hash, entry_count) VALUES ($1, $2, $3) ON CONFLICT (id) DO UPDATE SET head_hash = excluded.head_hash, entry_count = excluded.entry_count",
            (HeadRef::Event(_), Dialect::Postgres) => "INSERT INTO event_head (repo_id, head_hash, entry_count) VALUES ($1, $2, $3) ON CONFLICT (repo_id) DO UPDATE SET head_hash = excluded.head_hash, entry_count = excluded.entry_count",
        }
    }
}

} // verus!
