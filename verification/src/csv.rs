//! Splitting a `group_concat` CSV into a sorted list of distinct fields.

use vstd::prelude::*;
use crate::text::{chars_of, opt_text, strictly_sorted, texts_of, SortedTexts};

verus! {

/// `s[i..j]` is a non-empty comma-separated field of `s`: it starts at the
/// beginning or after a comma, ends at the end or before a comma, and holds no
/// comma.
pub open spec fn csv_field_at(s: Seq<char>, i: int, j: int) -> bool {
    &&& 0 <= i < j <= s.len()
    &&& (i == 0 || s[i - 1] == ',')
    &&& (j == s.len() || s[j] == ',')
    &&& forall|k: int| i <= k < j ==> s[k] != ','
}

/// `p` is one of the non-empty comma-separated fields of `s`.
pub open spec fn is_csv_field(s: Seq<char>, p: Seq<char>) -> bool {
    exists|i: int, j: int| csv_field_at(s, i, j) && s.subrange(i, j) == p
}

/// The fields of `s` that end before position `k`.
pub open spec fn field_before(s: Seq<char>, p: Seq<char>, k: int) -> bool {
    exists|i: int, j: int| csv_field_at(s, i, j) && j < k && s.subrange(i, j) == p
}

/// Every field is non-empty and holds no comma.
pub proof fn lemma_csv_fields_are_clean(s: Seq<char>, p: Seq<char>)
    requires
        is_csv_field(s, p),
    ensures
        p.len() > 0,
        !p.contains(','),
{
    let (i, j) = choose|i: int, j: int| csv_field_at(s, i, j) && s.subrange(i, j) == p;
    if p.contains(',') {
        let k = choose|k: int| 0 <= k < p.len() && p[k] == ',';
        assert(s[i + k] == ',');
    }
}

proof fn lemma_field_ending_at(s: Seq<char>, start: int, k: int, i: int)
    requires
        0 <= start <= k <= s.len(),
        start == 0 || s[start - 1] == ',',
        forall|m: int| start <= m < k ==> s[m] != ',',
        csv_field_at(s, i, k),
    ensures
        i == start,
{
    if i < start {
        assert(s[start - 1] == ',');
        assert(i <= start - 1 < k);
    } else if i > start {
        assert(s[i - 1] != ',');
    }
}

/// Split a `group_concat` CSV (or `None`) into a de-duplicated, sorted list
/// of its non-empty fields — used for per-session distinct actors and repos.
pub fn split_csv(s: Option<String>) -> (v: Vec<String>)
    ensures
        strictly_sorted(texts_of(v@)),
        forall|p: Seq<char>| #[trigger] texts_of(v@).contains(p) <==> is_csv_field(opt_text(s), p),
{
    let text: String = match s {
        Some(t) => t,
        None => String::new(),
    };
    let ghost sv = text@;
    assert(sv == opt_text(s));
    let chars = chars_of(text.as_str());
    let n = chars.len();
    let mut out = SortedTexts::new();
    let mut start: usize = 0;
    for k in 0..n
        invariant
            n == sv.len(),
            chars@ == sv,
            text@ == sv,
            out.wf(),
            start <= k,
            start == 0 || sv[start - 1] == ',',
            forall|m: int| start <= m < k ==> sv[m] != ',',
            forall|p: Seq<char>| #[trigger] out.texts().contains(p) <==> field_before(sv, p, k as int),
    {
        if chars[k] == ',' {
            let ghost before = out.texts();
            if start < k {
                let piece = text.as_str().substring_char(start, k).to_owned();
                out.insert(piece);
            }
            proof {
                assert forall|p: Seq<char>| #[trigger] out.texts().contains(p) <==> field_before(sv, p, k + 1) by {
                    if field_before(sv, p, k + 1) {
                        let (i, j) = choose|i: int, j: int| csv_field_at(sv, i, j) && j < k + 1 && sv.subrange(i, j) == p;
                        if j == k {
                            lemma_field_ending_at(sv, start as int, k as int, i);
                        } else {
                            assert(field_before(sv, p, k as int));
                        }
                    }
                    if out.texts().contains(p) && !before.contains(p) {
                        assert(csv_field_at(sv, start as int, k as int));
                        assert(sv.subrange(start as int, k as int) == p);
                    }
                    if before.contains(p) {
                        let (i, j) = choose|i: int, j: int| csv_field_at(sv, i, j) && j < k && sv.subrange(i, j) == p;
                        assert(field_before(sv, p, k + 1));
                    }
                }
            }
            start = k + 1;
        } else {
            proof {
                assert forall|p: Seq<char>| field_before(sv, p, k + 1) implies field_before(sv, p, k as int) by {
                    let (i, j) = choose|i: int, j: int| csv_field_at(sv, i, j) && j < k + 1 && sv.subrange(i, j) == p;
                    if j == k {
                        assert(sv[j] == ',');
                    }
                }
                assert forall|p: Seq<char>| field_before(sv, p, k as int) implies field_before(sv, p, k + 1) by {
                    let (i, j) = choose|i: int, j: int| csv_field_at(sv, i, j) && j < k && sv.subrange(i, j) == p;
                    assert(csv_field_at(sv, i, j) && j < k + 1 && sv.subrange(i, j) == p);
                }
            }
        }
    }
    let ghost before = out.texts();
    if start < n {
        let piece = text.as_str().substring_char(start, n).to_owned();
        out.insert(piece);
    }
    proof {
        assert forall|p: Seq<char>| #[trigger] out.texts().contains(p) <==> is_csv_field(sv, p) by {
            if is_csv_field(sv, p) {
                let (i, j) = choose|i: int, j: int| csv_field_at(sv, i, j) && sv.subrange(i, j) == p;
                if j == n {
                    lemma_field_ending_at(sv, start as int, n as int, i);
                } else {
                    assert(field_before(sv, p, n as int));
                }
            }
            if out.texts().contains(p) && !before.contains(p) {
                assert(csv_field_at(sv, start as int, n as int));
                assert(sv.subrange(start as int, n as int) == p);
            }
            if before.contains(p) {
                let (i, j) = choose|i: int, j: int| csv_field_at(sv, i, j) && j < n && sv.subrange(i, j) == p;
                assert(is_csv_field(sv, p));
            }
        }
    }
    out.into_vec()
}

} // verus!
