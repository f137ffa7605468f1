//! Levenshtein distance between callsigns.

use vstd::prelude::*;
use vstd::string::*;

verus! {

/// The smaller of two numbers.
pub open spec fn least(a: nat, b: nat) -> nat {
    if a <= b {
        a
    } else {
        b
    }
}

/// The larger of two numbers.
pub open spec fn most(a: nat, b: nat) -> nat {
    if a <= b {
        b
    } else {
        a
    }
}

/// The cost of putting `y` in place of `x`.
pub open spec fn swap_cost(x: u8, y: u8) -> nat {
    if x == y {
        0
    } else {
        1
    }
}

/// The distance between the first `i` bytes of `a` and the first `j` bytes of
/// `b`, by the last byte of each.
pub open spec fn prefix_distance(a: Seq<u8>, b: Seq<u8>, i: nat, j: nat) -> nat
    decreases i + j,
{
    if i == 0 {
        j
    } else if j == 0 {
        i
    } else {
        least(
            least(
                prefix_distance(a, b, (i - 1) as nat, j) + 1,
                prefix_distance(a, b, i, (j - 1) as nat) + 1,
            ),
            prefix_distance(a, b, (i - 1) as nat, (j - 1) as nat) + swap_cost(a[i - 1], b[j - 1]),
        )
    }
}

/// The edit distance between two byte strings.
pub open spec fn edit_distance(a: Seq<u8>, b: Seq<u8>) -> nat {
    prefix_distance(a, b, a.len(), b.len())
}

// ---------------------------------------------------------------------------
// Edit scripts
// ---------------------------------------------------------------------------

/// A single-byte edit at a position.
pub enum Edit {
    Insert(int, u8),
    Delete(int),
    Replace(int, u8),
}

/// The edit can be made in `s`.
pub open spec fn applies(s: Seq<u8>, edit: Edit) -> bool {
    match edit {
        Edit::Insert(p, _) => 0 <= p <= s.len(),
        Edit::Delete(p) => 0 <= p < s.len(),
        Edit::Replace(p, _) => 0 <= p < s.len(),
    }
}

/// `s` after the edit.
pub open spec fn edited(s: Seq<u8>, edit: Edit) -> Seq<u8> {
    match edit {
        Edit::Insert(p, x) => s.insert(p, x),
        Edit::Delete(p) => s.remove(p),
        Edit::Replace(p, x) => s.update(p, x),
    }
}

/// The edits of the script, made one after the other, turn `a` into `b`.
pub open spec fn leads(a: Seq<u8>, script: Seq<Edit>, b: Seq<u8>) -> bool
    decreases script.len(),
{
    if script.len() == 0 {
        a == b
    } else {
        applies(a, script[0]) && leads(edited(a, script[0]), script.skip(1), b)
    }
}

/// `n` is the least number of single-byte insertions, deletions and
/// substitutions that turn `a` into `b`.
pub open spec fn least_edits(a: Seq<u8>, b: Seq<u8>, n: nat) -> bool {
    &&& exists|script: Seq<Edit>| #[trigger] leads(a, script, b) && script.len() == n
    &&& forall|script: Seq<Edit>| #[trigger] leads(a, script, b) ==> script.len() >= n
}

/// A script that turns the first `i` bytes of a text, those of `a`, into the
/// first `j` bytes of `b`.
spec fn prefix_script(a: Seq<u8>, b: Seq<u8>, i: nat, j: nat) -> Seq<Edit>
    decreases i + j,
{
    if i == 0 && j == 0 {
        seq![]
    } else if j > 0 && (i == 0 || prefix_distance(a, b, i, j) == prefix_distance(
        a,
        b,
        i,
        (j - 1) as nat,
    ) + 1) {
        seq![Edit::Insert(i as int, b[j - 1])] + prefix_script(a, b, i, (j - 1) as nat)
    } else if i > 0 && (j == 0 || prefix_distance(a, b, i, j) == prefix_distance(
        a,
        b,
        (i - 1) as nat,
        j,
    ) + 1) {
        seq![Edit::Delete(i - 1)] + prefix_script(a, b, (i - 1) as nat, j)
    } else if i > 0 && j > 0 && a[i - 1] != b[j - 1] {
        seq![Edit::Replace(i - 1, b[j - 1])] + prefix_script(a, b, (i - 1) as nat, (j - 1) as nat)
    } else if i > 0 && j > 0 {
        prefix_script(a, b, (i - 1) as nat, (j - 1) as nat)
    } else {
        seq![]
    }
}

/// The script has as many edits as the distance says, and leads from one prefix
/// to the other, whatever stands behind.
proof fn lemma_prefix_script(a: Seq<u8>, b: Seq<u8>, i: nat, j: nat, rest: Seq<u8>)
    requires
        i <= a.len(),
        j <= b.len(),
    ensures
        prefix_script(a, b, i, j).len() == prefix_distance(a, b, i, j),
        leads(a.take(i as int) + rest, prefix_script(a, b, i, j), b.take(j as int) + rest),
    decreases i + j,
{
    let from = a.take(i as int) + rest;
    let to = b.take(j as int) + rest;
    let script = prefix_script(a, b, i, j);
    if i == 0 && j == 0 {
        assert(from =~= to);
    } else if j > 0 && (i == 0 || prefix_distance(a, b, i, j) == prefix_distance(
        a,
        b,
        i,
        (j - 1) as nat,
    ) + 1) {
        let j1 = (j - 1) as nat;
        let more = seq![b[j - 1]] + rest;
        lemma_prefix_script(a, b, i, j1, more);
        assert(script.skip(1) =~= prefix_script(a, b, i, j1));
        assert(edited(from, script[0]) =~= a.take(i as int) + more);
        assert(b.take(j1 as int) + more =~= to);
    } else if i > 0 && (j == 0 || prefix_distance(a, b, i, j) == prefix_distance(
        a,
        b,
        (i - 1) as nat,
        j,
    ) + 1) {
        let i1 = (i - 1) as nat;
        lemma_prefix_script(a, b, i1, j, rest);
        assert(script.skip(1) =~= prefix_script(a, b, i1, j));
        assert(edited(from, script[0]) =~= a.take(i1 as int) + rest);
    } else {
        let i1 = (i - 1) as nat;
        let j1 = (j - 1) as nat;
        let more = seq![b[j - 1]] + rest;
        lemma_prefix_script(a, b, i1, j1, more);
        assert(b.take(j1 as int) + more =~= to);
        if a[i - 1] != b[j - 1] {
            assert(script.skip(1) =~= prefix_script(a, b, i1, j1));
            assert(edited(from, script[0]) =~= a.take(i1 as int) + more);
        } else {
            assert(from =~= a.take(i1 as int) + more);
        }
    }
}

/// Equal prefixes are at distance zero.
proof fn lemma_common_prefix(a: Seq<u8>, b: Seq<u8>, n: nat)
    requires
        n <= a.len(),
        n <= b.len(),
        forall|k: int| 0 <= k < n ==> #[trigger] a[k] == b[k],
    ensures
        prefix_distance(a, b, n, n) == 0,
    decreases n,
{
    if n > 0 {
        lemma_common_prefix(a, b, (n - 1) as nat);
        assert(a[n - 1] == b[n - 1]);
    }
}

/// A byte put in makes a distance of at most one.
proof fn lemma_insert_costs_one(s: Seq<u8>, p: int, x: u8, i: nat)
    requires
        0 <= p <= i <= s.len(),
    ensures
        prefix_distance(s, s.insert(p, x), i, i + 1) <= 1,
    decreases i,
{
    let t = s.insert(p, x);
    if i == p {
        assert forall|k: int| 0 <= k < i implies #[trigger] s[k] == t[k] by {}
        lemma_common_prefix(s, t, i);
        assert(prefix_distance(s, t, i, i + 1) <= prefix_distance(s, t, i, i) + 1);
    } else {
        lemma_insert_costs_one(s, p, x, (i - 1) as nat);
        assert(s[i - 1] == t[i as int]);
    }
}

/// A byte put in place of another makes a distance of at most one.
proof fn lemma_replace_costs_one(s: Seq<u8>, p: int, x: u8, i: nat)
    requires
        0 <= p < s.len(),
        i <= s.len(),
    ensures
        prefix_distance(s, s.update(p, x), i, i) <= if p < i { 1nat } else { 0nat },
    decreases i,
{
    let t = s.update(p, x);
    if i > 0 {
        lemma_replace_costs_one(s, p, x, (i - 1) as nat);
        if p != i - 1 {
            assert(s[i - 1] == t[i - 1]);
        }
    }
}

/// A single edit makes a distance of at most one.
proof fn lemma_edit_costs_one(s: Seq<u8>, edit: Edit)
    requires
        applies(s, edit),
    ensures
        edit_distance(s, edited(s, edit)) <= 1,
{
    match edit {
        Edit::Insert(p, x) => {
            lemma_insert_costs_one(s, p, x, s.len());
        },
        Edit::Delete(p) => {
            let t = s.remove(p);
            assert(t.insert(p, s[p]) =~= s);
            lemma_insert_costs_one(t, p, s[p], t.len());
            lemma_distance_symmetric(s, t);
        },
        Edit::Replace(p, x) => {
            lemma_replace_costs_one(s, p, x, s.len());
        },
    }
}

/// No script is shorter than the distance.
proof fn lemma_no_shorter_script(a: Seq<u8>, script: Seq<Edit>, b: Seq<u8>)
    requires
        leads(a, script, b),
    ensures
        edit_distance(a, b) <= script.len(),
    decreases script.len(),
{
    if script.len() == 0 {
        lemma_distance_zero(a, b);
    } else {
        let next = edited(a, script[0]);
        lemma_no_shorter_script(next, script.skip(1), b);
        lemma_edit_costs_one(a, script[0]);
        lemma_distance_triangle(a, next, b);
    }
}

// ---------------------------------------------------------------------------
// Laws
// ---------------------------------------------------------------------------

/// The distance is the least number of single-byte edits: some script of that
/// length leads from one string to the other, and no shorter one does.
pub proof fn lemma_distance_is_least(a: Seq<u8>, b: Seq<u8>)
    ensures
        least_edits(a, b, edit_distance(a, b)),
{
    let script = prefix_script(a, b, a.len(), b.len());
    lemma_prefix_script(a, b, a.len(), b.len(), seq![]);
    assert(a.take(a.len() as int) + seq![] =~= a);
    assert(b.take(b.len() as int) + seq![] =~= b);
    assert(leads(a, script, b));
    assert forall|other: Seq<Edit>| #[trigger] leads(a, other, b) implies other.len()
        >= edit_distance(a, b) by {
        lemma_no_shorter_script(a, other, b);
    }
}

proof fn lemma_prefix_bounds(a: Seq<u8>, b: Seq<u8>, i: nat, j: nat)
    ensures
        prefix_distance(a, b, i, j) <= most(i, j),
        prefix_distance(a, b, i, j) + i >= j,
        prefix_distance(a, b, i, j) + j >= i,
    decreases i + j,
{
    if i > 0 && j > 0 {
        lemma_prefix_bounds(a, b, (i - 1) as nat, j);
        lemma_prefix_bounds(a, b, i, (j - 1) as nat);
        lemma_prefix_bounds(a, b, (i - 1) as nat, (j - 1) as nat);
    }
}

proof fn lemma_prefix_symmetric(a: Seq<u8>, b: Seq<u8>, i: nat, j: nat)
    ensures
        prefix_distance(a, b, i, j) == prefix_distance(b, a, j, i),
    decreases i + j,
{
    if i > 0 && j > 0 {
        lemma_prefix_symmetric(a, b, (i - 1) as nat, j);
        lemma_prefix_symmetric(a, b, i, (j - 1) as nat);
        lemma_prefix_symmetric(a, b, (i - 1) as nat, (j - 1) as nat);
    }
}

proof fn lemma_prefix_zero(a: Seq<u8>, b: Seq<u8>, i: nat, j: nat)
    requires
        i <= a.len(),
        j <= b.len(),
    ensures
        prefix_distance(a, b, i, j) == 0 <==> a.take(i as int) == b.take(j as int),
    decreases i + j,
{
    if i == 0 || j == 0 {
        if a.take(i as int) == b.take(j as int) {
            assert(a.take(i as int).len() == b.take(j as int).len());
        } else {
            if i == 0 && j == 0 {
                assert(a.take(0) =~= b.take(0));
            }
        }
    } else {
        let i1 = (i - 1) as nat;
        let j1 = (j - 1) as nat;
        lemma_prefix_zero(a, b, i1, j1);
        let p = a.take(i as int);
        let q = b.take(j as int);
        assert(p =~= a.take(i1 as int).push(a[i1 as int]));
        assert(q =~= b.take(j1 as int).push(b[j1 as int]));
        assert(p.drop_last() =~= a.take(i1 as int));
        assert(q.drop_last() =~= b.take(j1 as int));
        if p == q {
            assert(p.last() == q.last());
            assert(prefix_distance(a, b, i1, j1) == 0);
        }
    }
}

proof fn lemma_prefix_triangle(a: Seq<u8>, b: Seq<u8>, c: Seq<u8>, i: nat, j: nat, k: nat)
    ensures
        prefix_distance(a, c, i, k) <= prefix_distance(a, b, i, j) + prefix_distance(b, c, j, k),
    decreases i + j + k,
{
    lemma_prefix_bounds(a, b, i, j);
    lemma_prefix_bounds(b, c, j, k);
    lemma_prefix_bounds(a, c, i, k);
    if i > 0 && j > 0 && k > 0 {
        let i1 = (i - 1) as nat;
        let j1 = (j - 1) as nat;
        let k1 = (k - 1) as nat;
        lemma_prefix_triangle(a, b, c, i1, j, k);
        lemma_prefix_triangle(a, b, c, i, j, k1);
        lemma_prefix_triangle(a, b, c, i, j1, k);
        lemma_prefix_triangle(a, b, c, i, j1, k1);
        lemma_prefix_triangle(a, b, c, i1, j1, k);
        lemma_prefix_triangle(a, b, c, i1, j1, k1);
    }
}

/// The distance is symmetric.
pub proof fn lemma_distance_symmetric(a: Seq<u8>, b: Seq<u8>)
    ensures
        edit_distance(a, b) == edit_distance(b, a),
{
    lemma_prefix_symmetric(a, b, a.len(), b.len());
}

/// The distance is zero exactly between equal strings.
pub proof fn lemma_distance_zero(a: Seq<u8>, b: Seq<u8>)
    ensures
        edit_distance(a, b) == 0 <==> a == b,
{
    lemma_prefix_zero(a, b, a.len(), b.len());
    assert(a.take(a.len() as int) =~= a);
    assert(b.take(b.len() as int) =~= b);
}

/// The distance is at most the longer length and at least the difference of lengths.
pub proof fn lemma_distance_bounds(a: Seq<u8>, b: Seq<u8>)
    ensures
        edit_distance(a, b) <= most(a.len(), b.len()),
        edit_distance(a, b) + a.len() >= b.len(),
        edit_distance(a, b) + b.len() >= a.len(),
{
    lemma_prefix_bounds(a, b, a.len(), b.len());
}

/// The distance obeys the triangle inequality.
pub proof fn lemma_distance_triangle(a: Seq<u8>, b: Seq<u8>, c: Seq<u8>)
    ensures
        edit_distance(a, c) <= edit_distance(a, b) + edit_distance(b, c),
{
    lemma_prefix_triangle(a, b, c, a.len(), b.len(), c.len());
}

// ---------------------------------------------------------------------------
// Computation
// ---------------------------------------------------------------------------

/// The smaller of two numbers.
fn min_of(a: u128, b: u128) -> (r: u128)
    ensures
        r == least(a as nat, b as nat),
{
    if a <= b {
        a
    } else {
        b
    }
}

/// One row of the distance table after another, keeping two rows.
fn bytes_distance(a: &[u8], b: &[u8]) -> (r: usize)
    ensures
        r == edit_distance(a@, b@),
{
    let m: usize = a.len();
    let n: usize = b.len();
    let mut prev: Vec<u128> = Vec::new();
    let mut k: usize = 0;
    while k < n
        invariant
            k <= n,
            n == b@.len(),
            prev@.len() == k,
            forall|j: int|
                0 <= j < k ==> #[trigger] prev@[j] == prefix_distance(a@, b@, 0, j as nat),
        decreases n - k,
    {
        prev.push(k as u128);
        k += 1;
    }
    prev.push(n as u128);
    let mut i: usize = 0;
    while i < m
        invariant
            i <= m,
            m == a@.len(),
            n == b@.len(),
            prev@.len() == n + 1,
            forall|j: int|
                0 <= j <= n ==> #[trigger] prev@[j] == prefix_distance(a@, b@, i as nat, j as nat),
        decreases m - i,
    {
        let mut curr: Vec<u128> = Vec::new();
        curr.push(i as u128 + 1);
        let mut j: usize = 0;
        while j < n
            invariant
                i < m,
                j <= n,
                m == a@.len(),
                n == b@.len(),
                prev@.len() == n + 1,
                forall|q: int|
                    0 <= q <= n ==> #[trigger] prev@[q] == prefix_distance(
                        a@,
                        b@,
                        i as nat,
                        q as nat,
                    ),
                curr@.len() == j + 1,
                forall|q: int|
                    0 <= q <= j ==> #[trigger] curr@[q] == prefix_distance(
                        a@,
                        b@,
                        (i + 1) as nat,
                        q as nat,
                    ),
            decreases n - j,
        {
            proof {
                lemma_prefix_bounds(a@, b@, i as nat, j as nat);
                lemma_prefix_bounds(a@, b@, i as nat, (j + 1) as nat);
                lemma_prefix_bounds(a@, b@, (i + 1) as nat, j as nat);
            }
            let cost: u128 = if a[i] == b[j] {
                0
            } else {
                1
            };
            let next: u128 = min_of(min_of(prev[j + 1] + 1, curr[j] + 1), prev[j] + cost);
            assert(next == prefix_distance(a@, b@, (i + 1) as nat, (j + 1) as nat));
            curr.push(next);
            j += 1;
        }
        prev = curr;
        i += 1;
    }
    proof {
        lemma_prefix_bounds(a@, b@, m as nat, n as nat);
    }
    prev[n] as usize
}

/// Compute the Levenshtein edit distance between two strings, byte by byte: the
/// least number of single-byte insertions, deletions and substitutions that
/// turn one into the other. In ASCII text a byte is a character.
///
/// Uses the standard dynamic programming approach with O(min(m,n)) space.
pub fn levenshtein(a: &str, b: &str) -> (r: usize)
    ensures
        r == edit_distance(a.spec_bytes(), b.spec_bytes()),
        least_edits(a.spec_bytes(), b.spec_bytes(), r as nat),
{
    let a_bytes = a.as_bytes();
    let b_bytes = b.as_bytes();
    proof {
        lemma_distance_is_least(a_bytes@, b_bytes@);
    }
    // The shorter string gives the rows their length.
    if a_bytes.len() < b_bytes.len() {
        proof {
            lemma_distance_symmetric(a_bytes@, b_bytes@);
        }
        bytes_distance(b_bytes, a_bytes)
    } else {
        bytes_distance(a_bytes, b_bytes)
    }
}

} // verus!
