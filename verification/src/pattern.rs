//! Wildcard patterns as the store's `LIKE` reads them, and the pattern that
//! a search makes of its query.

use vstd::prelude::*;

verus! {

/// Whether the whole of `t` matches the pattern `p`: `%` stands for any run
/// of characters, the empty one too, `_` for any one character, and every
/// other character for itself.
pub open spec fn like_matches(p: Seq<char>, t: Seq<char>) -> bool
    decreases p.len(), t.len(),
{
    if p.len() == 0 {
        t.len() == 0
    } else if p[0] == '%' {
        like_matches(p.drop_first(), t) || (t.len() > 0 && like_matches(p, t.drop_first()))
    } else if t.len() == 0 {
        false
    } else if p[0] == '_' || p[0] == t[0] {
        like_matches(p.drop_first(), t.drop_first())
    } else {
        false
    }
}

/// The pattern that a search for `query` hands to the store: the query
/// between two `%`, its own characters unchanged.
pub open spec fn search_pattern_of(query: Seq<char>) -> Seq<char> {
    seq!['%'] + query + seq!['%']
}

/// Whether `q` holds one of the two wildcard characters.
pub open spec fn has_wildcard(q: Seq<char>) -> bool {
    exists|i: int| 0 <= i < q.len() && (#[trigger] q[i] == '%' || q[i] == '_')
}

/// Whether `q` stands somewhere in `t`, character for character.
pub open spec fn occurs_in(q: Seq<char>, t: Seq<char>) -> bool {
    exists|k: int| 0 <= k && k + q.len() <= t.len() && #[trigger] t.subrange(k, k + q.len()) == q
}

/// How a match of the pattern from its `i`-th character on, against the
/// text from its `j`-th character on, goes back to later positions.
pub proof fn lemma_like_step(p: Seq<char>, t: Seq<char>, i: int, j: int)
    requires
        0 <= i < p.len(),
        0 <= j <= t.len(),
    ensures
        like_matches(p.skip(i), t.skip(j)) == if p[i] == '%' {
            like_matches(p.skip(i + 1), t.skip(j)) || (j < t.len() && like_matches(
                p.skip(i),
                t.skip(j + 1),
            ))
        } else {
            j < t.len() && (p[i] == '_' || p[i] == t[j]) && like_matches(
                p.skip(i + 1),
                t.skip(j + 1),
            )
        },
{
    assert(p.skip(i).drop_first() =~= p.skip(i + 1));
    assert(p.skip(i)[0] == p[i]);
    if j < t.len() {
        assert(t.skip(j).drop_first() =~= t.skip(j + 1));
        assert(t.skip(j)[0] == t[j]);
    }
}

/// The empty pattern matches the empty text only.
pub proof fn lemma_like_end(p: Seq<char>, t: Seq<char>, j: int)
    requires
        0 <= j <= t.len(),
    ensures
        like_matches(p.skip(p.len() as int), t.skip(j)) == (j == t.len()),
{
}

/// `%` alone matches every text.
pub proof fn lemma_percent_matches_all(t: Seq<char>)
    ensures
        like_matches(seq!['%'], t),
    decreases t.len(),
{
    let p = seq!['%'];
    assert(p[0] == '%');
    assert(p.drop_first() =~= Seq::<char>::empty());
    if t.len() > 0 {
        lemma_percent_matches_all(t.drop_first());
    } else {
        assert(like_matches(p.drop_first(), t));
    }
}

/// A pattern that begins with the plain characters `q` matches just the
/// texts that begin with `q` and whose rest matches the rest of the pattern.
pub proof fn lemma_like_literal(q: Seq<char>, r: Seq<char>, t: Seq<char>)
    requires
        !has_wildcard(q),
    ensures
        like_matches(q + r, t) == (q.len() <= t.len() && t.subrange(0, q.len() as int) == q
            && like_matches(r, t.skip(q.len() as int))),
    decreases q.len(),
{
    if q.len() == 0 {
        assert(q + r =~= r);
        assert(t.skip(0) =~= t);
        assert(t.subrange(0, 0) =~= q);
    } else {
        let q1 = q.drop_first();
        assert(!has_wildcard(q1)) by {
            if has_wildcard(q1) {
                let i = choose|i: int| 0 <= i < q1.len() && (#[trigger] q1[i] == '%' || q1[i] == '_');
                assert(q[i + 1] == q1[i]);
            }
        }
        assert((q + r).drop_first() =~= q1 + r);
        assert((q + r)[0] == q[0]);
        assert(q[0] != '%' && q[0] != '_');
        if t.len() > 0 {
            let t1 = t.drop_first();
            lemma_like_literal(q1, r, t1);
            if q.len() <= t.len() {
                assert(t1.skip(q1.len() as int) =~= t.skip(q.len() as int));
                let a = t.subrange(0, q.len() as int);
                let b = t1.subrange(0, q1.len() as int);
                assert(b =~= a.drop_first());
                assert(a[0] == t[0]);
                if q[0] == t[0] && b == q1 {
                    assert forall|i: int| 0 <= i < q.len() implies a[i] == q[i] by {
                        if i > 0 {
                            assert(a[i] == b[i - 1]);
                            assert(q[i] == q1[i - 1]);
                        }
                    }
                    assert(a =~= q);
                }
            }
        }
    }
}

/// A pattern that begins with `%` matches just the texts of which some
/// tail matches the rest of the pattern.
pub proof fn lemma_like_percent(r: Seq<char>, t: Seq<char>)
    ensures
        like_matches(seq!['%'] + r, t) == (exists|k: int|
            0 <= k <= t.len() && like_matches(r, #[trigger] t.skip(k))),
    decreases t.len(),
{
    let p = seq!['%'] + r;
    assert(p.drop_first() =~= r);
    assert(p[0] == '%');
    assert(t.skip(0) =~= t);
    if t.len() == 0 {
        if exists|k: int| 0 <= k <= t.len() && like_matches(r, #[trigger] t.skip(k)) {
            let k = choose|k: int| 0 <= k <= t.len() && like_matches(r, #[trigger] t.skip(k));
            assert(k == 0);
        }
    } else {
        let t1 = t.drop_first();
        lemma_like_percent(r, t1);
        if like_matches(p, t) {
            if like_matches(r, t) {
                assert(like_matches(r, t.skip(0)));
            } else {
                let k1 = choose|k: int| 0 <= k <= t1.len() && like_matches(r, #[trigger] t1.skip(k));
                assert(t1.skip(k1) =~= t.skip(k1 + 1));
                assert(like_matches(r, t.skip(k1 + 1)));
            }
        }
        if exists|k: int| 0 <= k <= t.len() && like_matches(r, #[trigger] t.skip(k)) {
            let k = choose|k: int| 0 <= k <= t.len() && like_matches(r, #[trigger] t.skip(k));
            if k > 0 {
                assert(t1.skip(k - 1) =~= t.skip(k));
                assert(like_matches(r, t1.skip(k - 1)));
            }
        }
    }
}

/// A search for a query without wildcard characters finds just the texts
/// in which the query stands, character for character.
pub proof fn lemma_search_is_containment(q: Seq<char>, t: Seq<char>)
    requires
        !has_wildcard(q),
    ensures
        like_matches(search_pattern_of(q), t) == occurs_in(q, t),
{
    let r = q + seq!['%'];
    assert(search_pattern_of(q) =~= seq!['%'] + r);
    lemma_like_percent(r, t);
    assert forall|k: int| 0 <= k <= t.len() implies like_matches(r, #[trigger] t.skip(k)) == (k
        + q.len() <= t.len() && t.subrange(k, k + q.len()) == q) by {
        lemma_like_literal(q, seq!['%'], t.skip(k));
        lemma_percent_matches_all(t.skip(k).skip(q.len() as int));
        if k + q.len() <= t.len() {
            assert(t.skip(k).subrange(0, q.len() as int) =~= t.subrange(k, k + q.len()));
        }
    }
    if like_matches(search_pattern_of(q), t) {
        let k = choose|k: int| 0 <= k <= t.len() && like_matches(r, #[trigger] t.skip(k));
        assert(t.subrange(k, k + q.len()) == q);
    }
    if occurs_in(q, t) {
        let k = choose|k: int|
            0 <= k && k + q.len() <= t.len() && #[trigger] t.subrange(k, k + q.len()) == q;
        assert(like_matches(r, t.skip(k)));
    }
}

/// Whether the whole of `text` matches `pattern`.
pub fn like(pattern: &Vec<char>, text: &Vec<char>) -> (r: bool)
    ensures
        r == like_matches(pattern@, text@),
{
    let n: usize = pattern.len();
    let m: usize = text.len();
    // `row[j]` and `last` say whether the pattern from `i` on matches the
    // text from `j` on, `last` standing for `j == m`.
    let mut row: Vec<bool> = Vec::new();
    let mut k: usize = 0;
    while k < m
        invariant
            k <= m,
            m == text@.len(),
            row@.len() == k,
            forall|j: int| 0 <= j < k ==> row@[j] == like_matches(
                pattern@.skip(pattern@.len() as int),
                #[trigger] text@.skip(j),
            ),
        decreases m - k,
    {
        proof {
            lemma_like_end(pattern@, text@, k as int);
        }
        row.push(false);
        k = k + 1;
    }
    let mut last: bool = true;
    proof {
        lemma_like_end(pattern@, text@, m as int);
    }
    let mut i: usize = n;
    while i > 0
        invariant
            i <= n,
            n == pattern@.len(),
            m == text@.len(),
            row@.len() == m,
            forall|j: int| 0 <= j < m ==> row@[j] == like_matches(
                pattern@.skip(i as int),
                #[trigger] text@.skip(j),
            ),
            last == like_matches(pattern@.skip(i as int), text@.skip(m as int)),
        decreases i,
    {
        i = i - 1;
        let c: char = pattern[i];
        let ghost below = row@;
        let ghost below_last = last;
        if c == '%' {
            proof {
                lemma_like_step(pattern@, text@, i as int, m as int);
            }
            let mut j: usize = m;
            let mut after: bool = last;
            while j > 0
                invariant
                    j <= m,
                    i < n,
                    n == pattern@.len(),
                    m == text@.len(),
                    c == pattern@[i as int],
                    c == '%',
                    row@.len() == m,
                    below.len() == m,
                    forall|x: int| 0 <= x < j ==> row@[x] == below[x],
                    forall|x: int| 0 <= x < m ==> below[x] == like_matches(
                        pattern@.skip(i + 1),
                        #[trigger] text@.skip(x),
                    ),
                    forall|x: int| j <= x < m ==> row@[x] == like_matches(
                        pattern@.skip(i as int),
                        #[trigger] text@.skip(x),
                    ),
                    after == like_matches(pattern@.skip(i as int), text@.skip(j as int)),
                decreases j,
            {
                j = j - 1;
                proof {
                    lemma_like_step(pattern@, text@, i as int, j as int);
                }
                let here: bool = row[j] || after;
                row.set(j, here);
                after = here;
            }
        } else {
            let mut j: usize = 0;
            while j < m
                invariant
                    j <= m,
                    i < n,
                    n == pattern@.len(),
                    m == text@.len(),
                    c == pattern@[i as int],
                    c != '%',
                    row@.len() == m,
                    below.len() == m,
                    forall|x: int| j <= x < m ==> row@[x] == below[x],
                    forall|x: int| 0 <= x < m ==> below[x] == like_matches(
                        pattern@.skip(i + 1),
                        #[trigger] text@.skip(x),
                    ),
                    last == below_last,
                    below_last == like_matches(pattern@.skip(i + 1), text@.skip(m as int)),
                    forall|x: int| 0 <= x < j ==> row@[x] == like_matches(
                        pattern@.skip(i as int),
                        #[trigger] text@.skip(x),
                    ),
                decreases m - j,
            {
                proof {
                    lemma_like_step(pattern@, text@, i as int, j as int);
                }
                let next: bool = if j + 1 < m {
                    row[j + 1]
                } else {
                    last
                };
                let here: bool = (c == '_' || c == text[j]) && next;
                row.set(j, here);
                j = j + 1;
            }
            proof {
                lemma_like_step(pattern@, text@, i as int, m as int);
            }
            last = false;
        }
    }
    proof {
        assert(pattern@.skip(0) =~= pattern@);
        assert(text@.skip(0) =~= text@);
    }
    if m > 0 {
        row[0]
    } else {
        last
    }
}

/// The pattern that a search for `query` hands to the store.
pub fn search_pattern(query: &Vec<char>) -> (pattern: Vec<char>)
    ensures
        pattern@ == search_pattern_of(query@),
{
    let mut pattern: Vec<char> = Vec::new();
    pattern.push('%');
    let mut i: usize = 0;
    while i < query.len()
        invariant
            i <= query.len(),
            pattern@ == seq!['%'] + query@.take(i as int),
        decreases query.len() - i,
    {
        pattern.push(query[i]);
        proof {
            assert(pattern@ =~= seq!['%'] + query@.take(i + 1));
        }
        i = i + 1;
    }
    pattern.push('%');
    proof {
        assert(query@.take(query@.len() as int) =~= query@);
    }
    pattern
}

} // verus!
