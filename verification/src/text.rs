//! Text helpers over character sequences: character access, equality, ASCII
//! case folding and the code-point lexicographic order that `String`'s `Ord`
//! follows.

use vstd::prelude::*;

verus! {

/// The text of an optional string: its characters, or empty when absent.
pub open spec fn opt_text(o: Option<String>) -> Seq<char> {
    match o {
        Some(s) => s@,
        None => Seq::empty(),
    }
}

/// The characters of a string slice.
pub fn chars_of(s: &str) -> (v: Vec<char>)
    ensures
        v@ == s@,
{
    let mut v: Vec<char> = Vec::new();
    for c in it: s.chars()
        invariant
            v@ == it.seq().take(it.index() as int),
    {
        v.push(c);
    }
    v
}


/// Whether two character vectors hold the same characters.
pub fn chars_eq(a: &Vec<char>, b: &Vec<char>) -> (r: bool)
    ensures
        r == (a@ == b@),
{
    if a.len() != b.len() {
        return false;
    }
    let n = a.len();
    for i in 0..n
        invariant
            n == a@.len(),
            n == b@.len(),
            forall|j: int| 0 <= j < i ==> a@[j] == b@[j],
    {
        if a[i] != b[i] {
            return false;
        }
    }
    assert(a@ =~= b@);
    true
}

/// Whether a string slice holds exactly the characters of `b`.
pub fn str_eq_chars(a: &str, b: &Vec<char>) -> (r: bool)
    ensures
        r == (a@ == b@),
{
    let v = chars_of(a);
    chars_eq(&v, b)
}

/// The code of a character after ASCII lower-casing: `A`..`Z` map to
/// `a`..`z`, every other character is unchanged.
pub open spec fn lower_code(c: char) -> u32 {
    if 65 <= (c as u32) <= 90 { ((c as u32) + 32) as u32 } else { c as u32 }
}

/// `s` lower-cased (ASCII only) equals `t`.
pub open spec fn ascii_lowercase_eq(s: Seq<char>, t: Seq<char>) -> bool {
    &&& s.len() == t.len()
    &&& forall|i: int| 0 <= i < s.len() ==> lower_code(#[trigger] s[i]) == (t[i] as u32)
}

/// Whether `s`, ASCII lower-cased, equals `t`.
pub fn lowercase_eq(s: &Vec<char>, t: &Vec<char>) -> (r: bool)
    ensures
        r == ascii_lowercase_eq(s@, t@),
{
    if s.len() != t.len() {
        return false;
    }
    let n = s.len();
    for i in 0..n
        invariant
            n == s@.len(),
            n == t@.len(),
            forall|j: int| 0 <= j < i ==> lower_code(#[trigger] s@[j]) == (t@[j] as u32),
    {
        let c = s[i] as u32;
        let l = if 65 <= c && c <= 90 { c + 32 } else { c };
        if l != t[i] as u32 {
            return false;
        }
    }
    true
}

/// Code-point lexicographic order on character sequences (the order of
/// `String`'s `Ord`, since UTF-8 preserves code-point order).
pub open spec fn char_seq_lt(a: Seq<char>, b: Seq<char>) -> bool
    decreases a.len(),
{
    if a.len() == 0 {
        b.len() > 0
    } else if b.len() == 0 {
        false
    } else if a[0] != b[0] {
        (a[0] as int) < (b[0] as int)
    } else {
        char_seq_lt(a.drop_first(), b.drop_first())
    }
}

/// The order is irreflexive.
pub proof fn lemma_lt_irreflexive(a: Seq<char>)
    ensures
        !char_seq_lt(a, a),
    decreases a.len(),
{
    if a.len() > 0 {
        lemma_lt_irreflexive(a.drop_first());
    }
}

/// Distinct sequences are ordered one way or the other, and never both.
pub proof fn lemma_lt_total(a: Seq<char>, b: Seq<char>)
    ensures
        a != b ==> (char_seq_lt(a, b) || char_seq_lt(b, a)),
        !(char_seq_lt(a, b) && char_seq_lt(b, a)),
    decreases a.len(),
{
    if a.len() > 0 && b.len() > 0 && a[0] == b[0] {
        lemma_lt_total(a.drop_first(), b.drop_first());
        if a != b {
            assert(a =~= seq![a[0]] + a.drop_first());
            assert(b =~= seq![b[0]] + b.drop_first());
        }
    } else if a.len() == 0 && b.len() == 0 {
        assert(a =~= b);
    } else if a.len() > 0 && b.len() > 0 {
        assert((a[0] as int) != (b[0] as int));
    }
}

/// The order is transitive.
pub proof fn lemma_lt_transitive(a: Seq<char>, b: Seq<char>, c: Seq<char>)
    requires
        char_seq_lt(a, b),
        char_seq_lt(b, c),
    ensures
        char_seq_lt(a, c),
    decreases a.len(),
{
    if a.len() > 0 && b.len() > 0 && c.len() > 0 && a[0] == b[0] && b[0] == c[0] {
        lemma_lt_transitive(a.drop_first(), b.drop_first(), c.drop_first());
    }
}

proof fn lemma_lt_skip_step(a: Seq<char>, b: Seq<char>, i: int)
    requires
        0 <= i < a.len(),
        i < b.len(),
        a[i] == b[i],
    ensures
        char_seq_lt(a.skip(i), b.skip(i)) == char_seq_lt(a.skip(i + 1), b.skip(i + 1)),
{
    assert(a.skip(i).drop_first() =~= a.skip(i + 1));
    assert(b.skip(i).drop_first() =~= b.skip(i + 1));
}

/// Compare two character sequences in code-point lexicographic order:
/// `-1` when `a` comes first, `0` when equal, `1` when `b` comes first.
pub fn compare_chars(a: &Vec<char>, b: &Vec<char>) -> (r: i8)
    ensures
        r == -1 <==> char_seq_lt(a@, b@),
        r == 0 <==> a@ == b@,
        r == 1 <==> char_seq_lt(b@, a@),
        r == -1 || r == 0 || r == 1,
{
    proof {
        lemma_lt_total(a@, b@);
        lemma_lt_irreflexive(a@);
        assert(a@.skip(0) =~= a@);
        assert(b@.skip(0) =~= b@);
    }
    let mut i: usize = 0;
    while i < a.len() && i < b.len()
        invariant
            i <= a@.len(),
            i <= b@.len(),
            a@.take(i as int) =~= b@.take(i as int),
            char_seq_lt(a@, b@) == char_seq_lt(a@.skip(i as int), b@.skip(i as int)),
            char_seq_lt(b@, a@) == char_seq_lt(b@.skip(i as int), a@.skip(i as int)),
        decreases a@.len() - i,
    {
        if a[i] != b[i] {
            if a[i] < b[i] {
                return -1;
            } else {
                return 1;
            }
        }
        proof {
            lemma_lt_skip_step(a@, b@, i as int);
            lemma_lt_skip_step(b@, a@, i as int);
            assert(a@.take(i + 1) =~= a@.take(i as int).push(a@[i as int]));
            assert(b@.take(i + 1) =~= b@.take(i as int).push(b@[i as int]));
        }
        i = i + 1;
    }
    if a.len() == b.len() {
        assert(a@ =~= a@.take(i as int));
        assert(b@ =~= b@.take(i as int));
        0
    } else if a.len() < b.len() {
        -1
    } else {
        1
    }
}


/// A sequence extended by one element contains exactly the old elements and
/// the new one.
pub proof fn lemma_push_contains(s: Seq<Seq<char>>, a: Seq<char>)
    ensures
        forall|x: Seq<char>| #[trigger] s.push(a).contains(x) <==> (s.contains(x) || x == a),
{
    assert forall|x: Seq<char>| #[trigger] s.push(a).contains(x) <==> (s.contains(x) || x == a) by {
        if s.push(a).contains(x) {
            let k = choose|k: int| 0 <= k < s.push(a).len() && s.push(a)[k] == x;
            if k < s.len() {
                assert(s[k] == x);
            }
        }
        if s.contains(x) {
            let k = choose|k: int| 0 <= k < s.len() && s[k] == x;
            assert(s.push(a)[k] == x);
        }
        if x == a {
            assert(s.push(a)[s.len() as int] == x);
        }
    }
}

/// `s` ends with `suffix`.
pub open spec fn ends_with(s: Seq<char>, suffix: Seq<char>) -> bool {
    suffix.len() <= s.len() && s.subrange(s.len() - suffix.len(), s.len() as int) == suffix
}

/// The character sequences of a list of strings.
pub open spec fn texts_of(v: Seq<String>) -> Seq<Seq<char>> {
    v.map_values(|s: String| s@)
}

/// Strictly increasing in code-point lexicographic order (sorted, no duplicates).
pub open spec fn strictly_sorted(s: Seq<Seq<char>>) -> bool {
    forall|i: int, j: int| 0 <= i < j < s.len() ==> char_seq_lt(#[trigger] s[i], #[trigger] s[j])
}

/// A sorted set of strings, kept with the characters of each for comparison.
pub struct SortedTexts {
    keys: Vec<Vec<char>>,
    items: Vec<String>,
}

impl SortedTexts {
    /// The strings held, in order.
    pub closed spec fn texts(&self) -> Seq<Seq<char>> {
        texts_of(self.items@)
    }

    /// Keys mirror the items and the items are strictly sorted.
    pub closed spec fn wf(&self) -> bool {
        &&& self.keys@.len() == self.items@.len()
        &&& forall|i: int| 0 <= i < self.keys@.len() ==> #[trigger] self.keys@[i]@ == self.items@[i]@
        &&& strictly_sorted(texts_of(self.items@))
    }

    /// An empty set.
    pub fn new() -> (s: SortedTexts)
        ensures
            s.wf(),
            s.texts() == Seq::<Seq<char>>::empty(),
    {
        let s = SortedTexts { keys: Vec::new(), items: Vec::new() };
        assert(s.texts() =~= Seq::<Seq<char>>::empty());
        s
    }

    /// Add a string, keeping the set sorted and free of duplicates.
    pub fn insert(&mut self, item: String)
        requires
            old(self).wf(),
        ensures
            final(self).wf(),
            forall|x: Seq<char>| #[trigger] final(self).texts().contains(x) <==> (old(self).texts().contains(x) || x == item@),
    {
        let key = chars_of(item.as_str());
        let n = self.keys.len();
        let mut p: usize = 0;
        let mut found = false;
        while p < n
            invariant_except_break
                !found,
            invariant
                self.wf(),
                n == self.keys@.len(),
                p <= n,
                forall|i: int| 0 <= i < p ==> char_seq_lt(#[trigger] self.keys@[i]@, key@),
            ensures
                p <= n,
                forall|i: int| 0 <= i < p ==> char_seq_lt(#[trigger] self.keys@[i]@, key@),
                found ==> p < n && self.keys@[p as int]@ == key@,
                !found ==> (p == n || char_seq_lt(key@, self.keys@[p as int]@)),
            decreases n - p,
        {
            let c = compare_chars(&self.keys[p], &key);
            if c == 0 {
                found = true;
                break;
            }
            if c == 1 {
                break;
            }
            p = p + 1;
        }
        if found {
            assert(self.keys@[p as int]@ == self.items@[p as int]@);
            assert(self.texts()[p as int] == item@);
            return;
        }
        proof {
            let t = self.texts();
            assert forall|j: int| p <= j < t.len() implies char_seq_lt(item@, #[trigger] t[j]) by {
                assert(self.keys@[p as int]@ == self.items@[p as int]@);
                assert(t[p as int] == self.keys@[p as int]@);
                if j > p {
                    lemma_lt_transitive(item@, t[p as int], t[j]);
                }
            }
        }
        let ghost old_texts = self.texts();
        self.keys.insert(p, key);
        self.items.insert(p, item);
        proof {
            let t = self.texts();
            assert(t =~= old_texts.insert(p as int, item@));
            assert forall|i: int, j: int| 0 <= i < j < t.len() implies char_seq_lt(#[trigger] t[i], #[trigger] t[j]) by {
                if i < p && j < p {
                    assert(char_seq_lt(old_texts[i], old_texts[j]));
                } else if i < p && j == p {
                    assert(old_texts[i] == self.keys@[i]@);
                } else if i < p {
                    assert(char_seq_lt(old_texts[i], old_texts[j - 1]));
                } else if i == p {
                } else {
                    assert(char_seq_lt(old_texts[i - 1], old_texts[j - 1]));
                }
            }
            assert forall|i: int| 0 <= i < self.keys@.len() implies #[trigger] self.keys@[i]@ == self.items@[i]@ by {
                if i < p {
                } else if i > p {
                    assert(self.keys@[i] == old(self).keys@[i - 1]);
                }
            }
            assert forall|x: Seq<char>| #[trigger] t.contains(x) <==> (old_texts.contains(x) || x == item@) by {
                if t.contains(x) {
                    let k = choose|k: int| 0 <= k < t.len() && t[k] == x;
                    if k < p {
                        assert(old_texts[k] == x);
                    } else if k > p {
                        assert(old_texts[k - 1] == x);
                    }
                }
                if old_texts.contains(x) {
                    let k = choose|k: int| 0 <= k < old_texts.len() && old_texts[k] == x;
                    if k < p {
                        assert(t[k] == x);
                    } else {
                        assert(t[k + 1] == x);
                    }
                }
                if x == item@ {
                    assert(t[p as int] == x);
                }
            }
        }
    }

    /// The strings, sorted.
    pub fn into_vec(self) -> (v: Vec<String>)
        requires
            self.wf(),
        ensures
            texts_of(v@) == self.texts(),
            strictly_sorted(texts_of(v@)),
    {
        self.items
    }
}

} // verus!
