//! The deterministic total order on diagnostics, and a stable sort by it.
use vstd::prelude::*;
use vstd::string::*;
use crate::model::{Diagnostic, Span};

verus! {

/// Lexicographic order on texts, character by character by code point
/// (for UTF-8 text the same order as by bytes).
pub open spec fn text_lt(a: Seq<char>, b: Seq<char>) -> bool
    decreases a.len(),
{
    if a.len() == 0 {
        b.len() > 0
    } else if b.len() == 0 {
        false
    } else if a[0] == b[0] {
        text_lt(a.drop_first(), b.drop_first())
    } else {
        (a[0] as u32) < (b[0] as u32)
    }
}

/// Order of two spans with equal rule tie-break: file, then line, then column,
/// then the rule identifier.
pub open spec fn spanned_lt(sa: Span, ra: Seq<char>, sb: Span, rb: Seq<char>) -> bool {
    if sa.file@ != sb.file@ {
        text_lt(sa.file@, sb.file@)
    } else if sa.line != sb.line {
        sa.line < sb.line
    } else if sa.col != sb.col {
        sa.col < sb.col
    } else {
        text_lt(ra, rb)
    }
}

/// `a` sorts strictly before `b`: spanned before unspanned; spanned ones by
/// (file, line, column, rule id); unspanned ones by rule id.
pub open spec fn diag_lt(a: Diagnostic, b: Diagnostic) -> bool {
    match (a.span, b.span) {
        (Some(sa), Some(sb)) => spanned_lt(sa, a.rule_id@, sb, b.rule_id@),
        (Some(_), None) => true,
        (None, Some(_)) => false,
        (None, None) => text_lt(a.rule_id@, b.rule_id@),
    }
}

/// `a` and `b` have the same sort key.
pub open spec fn same_key(a: Diagnostic, b: Diagnostic) -> bool {
    match (a.span, b.span) {
        (Some(sa), Some(sb)) => sa.file@ == sb.file@ && sa.line == sb.line && sa.col == sb.col
            && a.rule_id@ == b.rule_id@,
        (None, None) => a.rule_id@ == b.rule_id@,
        _ => false,
    }
}

/// Every diagnostic is at or after all earlier ones.
pub open spec fn is_sorted(s: Seq<Diagnostic>) -> bool {
    forall|i: int, j: int| 0 <= i < j < s.len() ==> !diag_lt(#[trigger] s[j], #[trigger] s[i])
}

/// Where a stable insertion places `x` into `s`: after every element that
/// does not sort strictly after `x`, scanning from the back.
pub open spec fn insert_pos(s: Seq<Diagnostic>, x: Diagnostic) -> int
    decreases s.len(),
{
    if s.len() == 0 {
        0
    } else if diag_lt(x, s.last()) {
        insert_pos(s.drop_last(), x)
    } else {
        s.len() as int
    }
}

/// The stable sort of `s`: each element, in input order, inserted after all
/// elements already placed that do not sort strictly after it.
pub open spec fn sorted(s: Seq<Diagnostic>) -> Seq<Diagnostic>
    decreases s.len(),
{
    if s.len() == 0 {
        s
    } else {
        let r = sorted(s.drop_last());
        r.insert(insert_pos(r, s.last()), s.last())
    }
}

/// Compares two texts lexicographically by code point.
pub fn text_less(a: &str, b: &str) -> (r: bool)
    ensures
        r == text_lt(a@, b@),
{
    let n = a.unicode_len();
    let m = b.unicode_len();
    let mut i: usize = 0;
    assert(a@.skip(0) =~= a@);
    assert(b@.skip(0) =~= b@);
    while i < n && i < m
        invariant
            n == a@.len(),
            m == b@.len(),
            i <= n,
            i <= m,
            text_lt(a@, b@) == text_lt(a@.skip(i as int), b@.skip(i as int)),
        decreases n - i,
    {
        let ca = a.get_char(i);
        let cb = b.get_char(i);
        if ca != cb {
            return (ca as u32) < (cb as u32);
        }
        assert(a@.skip(i as int).drop_first() =~= a@.skip(i + 1));
        assert(b@.skip(i as int).drop_first() =~= b@.skip(i + 1));
        i = i + 1;
    }
    i < m
}

/// Whether `a` sorts strictly before `b`.
pub fn diagnostic_less(a: &Diagnostic, b: &Diagnostic) -> (r: bool)
    ensures
        r == diag_lt(*a, *b),
{
    match (&a.span, &b.span) {
        (Some(sa), Some(sb)) => {
            if !text_eq(sa.file.as_str(), sb.file.as_str()) {
                text_less(sa.file.as_str(), sb.file.as_str())
            } else if sa.line != sb.line {
                sa.line < sb.line
            } else if sa.col != sb.col {
                sa.col < sb.col
            } else {
                text_less(a.rule_id.as_str(), b.rule_id.as_str())
            }
        },
        (Some(_), None) => true,
        (None, Some(_)) => false,
        (None, None) => text_less(a.rule_id.as_str(), b.rule_id.as_str()),
    }
}

/// Whether two texts are equal.
pub fn text_eq(a: &str, b: &str) -> (r: bool)
    ensures
        r == (a@ == b@),
{
    let n = a.unicode_len();
    let m = b.unicode_len();
    if n != m {
        return false;
    }
    let mut i: usize = 0;
    while i < n
        invariant
            n == a@.len(),
            m == b@.len(),
            n == m,
            i <= n,
            forall|k: int| 0 <= k < i ==> a@[k] == b@[k],
        decreases n - i,
    {
        if a.get_char(i) != b.get_char(i) {
            return false;
        }
        i = i + 1;
    }
    assert(a@ =~= b@);
    true
}

/// Sorts the diagnostics stably into the order of `diag_lt`.
pub fn sort_diagnostics(v: &mut Vec<Diagnostic>)
    ensures
        final(v)@ == sorted(old(v)@),
{
    let ghost input = v@;
    let mut out: Vec<Diagnostic> = Vec::new();
    let mut i: usize = 0;
    let n = v.len();
    while v.len() > 0
        invariant
            n == input.len(),
            i + v@.len() == n,
            v@ == input.skip(i as int),
            out@ == sorted(input.take(i as int)),
        decreases v@.len(),
    {
        let x = v.remove(0);
        let ghost before = out@;
        assert(input.take(i + 1).drop_last() =~= input.take(i as int));
        assert(input.take(i + 1).last() == x);
        let mut j: usize = out.len();
        assert(before.take(j as int) =~= before);
        while j > 0 && diagnostic_less(&x, &out[j - 1])
            invariant
                out@ == before,
                j <= out@.len(),
                insert_pos(before, x) == insert_pos(before.take(j as int), x),
            decreases j,
        {
            assert(before.take(j as int).drop_last() =~= before.take(j - 1));
            j = j - 1;
        }
        out.insert(j, x);
        assert(v@ =~= input.skip(i + 1));
        i = i + 1;
    }
    assert(input.take(i as int) =~= input);
    *v = out;
}

proof fn lemma_text_lt_irreflexive(a: Seq<char>)
    ensures
        !text_lt(a, a),
    decreases a.len(),
{
    if a.len() > 0 {
        lemma_text_lt_irreflexive(a.drop_first());
    }
}

proof fn lemma_text_lt_transitive(a: Seq<char>, b: Seq<char>, c: Seq<char>)
    requires
        text_lt(a, b),
        text_lt(b, c),
    ensures
        text_lt(a, c),
    decreases a.len(),
{
    if a.len() > 0 && b.len() > 0 && c.len() > 0 && a[0] == b[0] && b[0] == c[0] {
        lemma_text_lt_transitive(a.drop_first(), b.drop_first(), c.drop_first());
    }
}

proof fn lemma_text_lt_total(a: Seq<char>, b: Seq<char>)
    ensures
        text_lt(a, b) || text_lt(b, a) || a == b,
    decreases a.len(),
{
    if a.len() > 0 && b.len() > 0 && a[0] == b[0] {
        lemma_text_lt_total(a.drop_first(), b.drop_first());
        if a.drop_first() == b.drop_first() {
            assert(a.drop_first().len() == b.drop_first().len());
            assert(a.len() == b.len());
            assert forall|i: int| 0 <= i < a.len() implies #[trigger] a[i] == b[i] by {
                if i > 0 {
                    assert(a[i] == a.drop_first()[i - 1]);
                    assert(b[i] == b.drop_first()[i - 1]);
                }
            }
            assert(a =~= b);
        }
    } else if a.len() == 0 && b.len() == 0 {
        assert(a =~= b);
    } else if a.len() > 0 && b.len() > 0 {
        vstd::utf8::char_u32_cast(a[0], a[0] as u32);
        vstd::utf8::char_u32_cast(b[0], b[0] as u32);
    }
}

proof fn lemma_text_lt_facts(a: Seq<char>, b: Seq<char>, c: Seq<char>)
    ensures
        !text_lt(a, a),
        text_lt(a, b) && text_lt(b, c) ==> text_lt(a, c),
        text_lt(a, b) || text_lt(b, a) || a == b,
        !(text_lt(a, b) && text_lt(b, a)),
{
    lemma_text_lt_irreflexive(a);
    lemma_text_lt_total(a, b);
    if text_lt(a, b) && text_lt(b, c) {
        lemma_text_lt_transitive(a, b, c);
    }
    if text_lt(a, b) && text_lt(b, a) {
        lemma_text_lt_transitive(a, b, a);
    }
}

/// The order on diagnostics is a strict total order on sort keys: it is
/// irreflexive and transitive, and of two diagnostics exactly one sorts
/// before the other unless they have the same key; a diagnostic with a span
/// sorts before one without, whatever the rule ids.
pub proof fn lemma_diag_order_strict_total(a: Diagnostic, b: Diagnostic, c: Diagnostic)
    ensures
        !diag_lt(a, a),
        diag_lt(a, b) && diag_lt(b, c) ==> diag_lt(a, c),
        diag_lt(a, b) || diag_lt(b, a) || same_key(a, b),
        !(diag_lt(a, b) && diag_lt(b, a)),
        same_key(a, b) ==> !diag_lt(a, b),
        same_key(a, b) ==> (diag_lt(a, c) == diag_lt(b, c) && diag_lt(c, a) == diag_lt(c, b)),
        a.span is Some && b.span is None ==> diag_lt(a, b),
{
    lemma_text_lt_facts(a.rule_id@, b.rule_id@, c.rule_id@);
    lemma_text_lt_facts(b.rule_id@, a.rule_id@, c.rule_id@);
    lemma_text_lt_facts(a.rule_id@, a.rule_id@, a.rule_id@);
    if a.span is Some && b.span is Some && c.span is Some {
        let fa = a.span->0.file@;
        let fb = b.span->0.file@;
        let fc = c.span->0.file@;
        lemma_text_lt_facts(fa, fb, fc);
        lemma_text_lt_facts(fb, fa, fc);
    } else if a.span is Some && b.span is Some {
        lemma_text_lt_facts(a.span->0.file@, b.span->0.file@, b.span->0.file@);
    }
}

proof fn lemma_lt_not_lt_transitive(x: Diagnostic, y: Diagnostic, z: Diagnostic)
    requires
        diag_lt(x, y),
        !diag_lt(z, y),
    ensures
        diag_lt(x, z),
{
    lemma_diag_order_strict_total(y, z, x);
    lemma_diag_order_strict_total(x, y, z);
}

proof fn lemma_insert_pos(s: Seq<Diagnostic>, x: Diagnostic)
    ensures
        0 <= insert_pos(s, x) <= s.len(),
        forall|k: int| insert_pos(s, x) <= k < s.len() ==> diag_lt(x, #[trigger] s[k]),
        insert_pos(s, x) > 0 ==> !diag_lt(x, s[insert_pos(s, x) - 1]),
    decreases s.len(),
{
    if s.len() > 0 && diag_lt(x, s.last()) {
        let t = s.drop_last();
        lemma_insert_pos(t, x);
        assert forall|k: int| insert_pos(s, x) <= k < s.len() implies diag_lt(x, #[trigger] s[k]) by {
            if k < t.len() {
                assert(s[k] == t[k]);
            }
        }
    }
}

proof fn lemma_insert_keeps_sorted(s: Seq<Diagnostic>, x: Diagnostic)
    requires
        is_sorted(s),
    ensures
        is_sorted(s.insert(insert_pos(s, x), x)),
{
    lemma_insert_pos(s, x);
    let p = insert_pos(s, x);
    let r = s.insert(p, x);
    assert forall|k: int| 0 <= k < p implies !diag_lt(x, #[trigger] s[k]) by {
        if k < p - 1 && diag_lt(x, s[k]) {
            lemma_lt_not_lt_transitive(x, s[k], s[p - 1]);
        }
    }
    assert forall|k: int| p <= k < s.len() implies !diag_lt(#[trigger] s[k], x) by {
        lemma_diag_order_strict_total(x, s[k], x);
    }
    assert forall|i: int, j: int| 0 <= i < j < r.len() implies !diag_lt(#[trigger] r[j], #[trigger] r[i]) by {
        if j < p {
            assert(r[i] == s[i] && r[j] == s[j]);
        } else if j == p {
            assert(r[i] == s[i]);
        } else if i == p {
            assert(r[j] == s[j - 1]);
        } else if i < p {
            assert(r[i] == s[i] && r[j] == s[j - 1]);
        } else {
            assert(r[i] == s[i - 1] && r[j] == s[j - 1]);
        }
    }
}

/// The sort's output is in order and holds exactly the input's diagnostics.
pub proof fn lemma_sorted_is_ordered_permutation(s: Seq<Diagnostic>)
    ensures
        is_sorted(sorted(s)),
        sorted(s).to_multiset() == s.to_multiset(),
        sorted(s).len() == s.len(),
    decreases s.len(),
{
    broadcast use vstd::seq_lib::group_to_multiset_ensures;

    if s.len() > 0 {
        let t = s.drop_last();
        lemma_sorted_is_ordered_permutation(t);
        let r = sorted(t);
        lemma_insert_pos(r, s.last());
        lemma_insert_keeps_sorted(r, s.last());
        assert(s =~= t.push(s.last()));
    }
}

/// Sorting an already sorted sequence leaves it unchanged, so sorting twice
/// gives the same sequence as sorting once.
pub proof fn lemma_sort_idempotent(s: Seq<Diagnostic>)
    ensures
        sorted(sorted(s)) == sorted(s),
{
    lemma_sorted_is_ordered_permutation(s);
    lemma_sorted_of_sorted(sorted(s));
}

proof fn lemma_sorted_of_sorted(s: Seq<Diagnostic>)
    requires
        is_sorted(s),
    ensures
        sorted(s) == s,
    decreases s.len(),
{
    if s.len() > 0 {
        let t = s.drop_last();
        assert(is_sorted(t));
        lemma_sorted_of_sorted(t);
        assert(!diag_lt(s.last(), t.last()) || t.len() == 0);
        assert(t.insert(t.len() as int, s.last()) =~= s);
    }
}

/// No two different diagnostics of `s` have the same sort key.
pub open spec fn keys_unique(s: Seq<Diagnostic>) -> bool {
    forall|x: Diagnostic, y: Diagnostic|
        s.contains(x) && s.contains(y) && same_key(x, y) ==> x == y
}

proof fn lemma_sorted_unique(a: Seq<Diagnostic>, b: Seq<Diagnostic>)
    requires
        is_sorted(a),
        is_sorted(b),
        a.to_multiset() == b.to_multiset(),
        keys_unique(a),
    ensures
        a == b,
    decreases a.len(),
{
    broadcast use vstd::seq_lib::group_to_multiset_ensures;

    assert(a.len() == b.len()) by {
        a.to_multiset_ensures();
        b.to_multiset_ensures();
    }
    if a.len() == 0 {
        assert(a =~= b);
    } else {
        a.to_multiset_ensures();
        b.to_multiset_ensures();
        let n = a.len() - 1;
        let x = a[n];
        let y = b[n];
        assert(a.contains(x));
        assert(b.to_multiset().count(x) > 0);
        assert(b.contains(x));
        let j = choose|j: int| 0 <= j < b.len() && b[j] == x;
        assert(a.to_multiset().count(y) > 0);
        assert(a.contains(y));
        let i = choose|i: int| 0 <= i < a.len() && a[i] == y;
        if j < n {
            assert(!diag_lt(y, x));
        }
        if i < n {
            assert(!diag_lt(x, y));
        }
        lemma_diag_order_strict_total(x, y, x);
        assert(x == y);
        let a2 = a.drop_last();
        let b2 = b.drop_last();
        assert(a2 =~= a.remove(n));
        assert(b2 =~= b.remove(n));
        assert(a2.to_multiset() == a.to_multiset().remove(x));
        assert(b2.to_multiset() == b.to_multiset().remove(y));
        assert forall|u: Diagnostic, v: Diagnostic|
            a2.contains(u) && a2.contains(v) && same_key(u, v) implies u == v by {
            let p = choose|p: int| 0 <= p < a2.len() && a2[p] == u;
            let q = choose|q: int| 0 <= q < a2.len() && a2[q] == v;
            assert(a[p] == u && a[q] == v);
        }
        lemma_sorted_unique(a2, b2);
        assert(a =~= a2.push(x));
        assert(b =~= b2.push(y));
    }
}

/// Sorting gives one sequence for one multiset: two inputs that hold the
/// same diagnostics, in any order, sort to the same sequence, provided no two
/// different diagnostics share a sort key (among equal keys the sort keeps
/// input order).
pub proof fn lemma_sort_same_multiset(s1: Seq<Diagnostic>, s2: Seq<Diagnostic>)
    requires
        s1.to_multiset() == s2.to_multiset(),
        keys_unique(s1),
    ensures
        sorted(s1) == sorted(s2),
{
    broadcast use vstd::seq_lib::group_to_multiset_ensures;

    lemma_sorted_is_ordered_permutation(s1);
    lemma_sorted_is_ordered_permutation(s2);
    let t = sorted(s1);
    t.to_multiset_ensures();
    s1.to_multiset_ensures();
    assert forall|u: Diagnostic, v: Diagnostic|
        t.contains(u) && t.contains(v) && same_key(u, v) implies u == v by {
        assert(t.to_multiset().count(u) > 0);
        assert(t.to_multiset().count(v) > 0);
    }
    lemma_sorted_unique(t, sorted(s2));
}

} // verus!
