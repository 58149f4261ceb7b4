//! Line diff engine: a deterministic longest-common-subsequence comparison
//! of two snapshots, producing an ordered change script plus insertion and
//! removal counts.
//!
//! The script reconstructs both inputs: its equal and delete lines read in
//! order are exactly the old snapshot, its equal and insert lines the new
//! one, and the number of equal lines is the longest-common-subsequence
//! length — so the script never invents or drops a line.

use vstd::prelude::*;

use crate::text::views_of;

verus! {

/// One line operation of a change script.
pub enum DiffOp {
    Equal(String),
    Delete(String),
    Insert(String),
}

impl DiffOp {
    /// The line this operation carries.
    pub open spec fn line(self) -> Seq<char> {
        match self {
            DiffOp::Equal(s) => s@,
            DiffOp::Delete(s) => s@,
            DiffOp::Insert(s) => s@,
        }
    }
}

/// The old snapshot a script describes: its equal and delete lines in order.
pub open spec fn src_lines(ops: Seq<DiffOp>) -> Seq<Seq<char>>
    decreases ops.len(),
{
    if ops.len() == 0 {
        Seq::empty()
    } else {
        let rest = src_lines(ops.skip(1));
        match ops[0] {
            DiffOp::Insert(_) => rest,
            _ => seq![ops[0].line()] + rest,
        }
    }
}

/// The new snapshot a script describes: its equal and insert lines in order.
pub open spec fn dst_lines(ops: Seq<DiffOp>) -> Seq<Seq<char>>
    decreases ops.len(),
{
    if ops.len() == 0 {
        Seq::empty()
    } else {
        let rest = dst_lines(ops.skip(1));
        match ops[0] {
            DiffOp::Delete(_) => rest,
            _ => seq![ops[0].line()] + rest,
        }
    }
}

/// Number of equal operations in a script.
pub open spec fn count_equal(ops: Seq<DiffOp>) -> int
    decreases ops.len(),
{
    if ops.len() == 0 {
        0
    } else {
        (match ops[0] {
            DiffOp::Equal(_) => 1int,
            _ => 0int,
        }) + count_equal(ops.skip(1))
    }
}

/// Number of insert operations in a script.
pub open spec fn count_insert(ops: Seq<DiffOp>) -> int
    decreases ops.len(),
{
    if ops.len() == 0 {
        0
    } else {
        (match ops[0] {
            DiffOp::Insert(_) => 1int,
            _ => 0int,
        }) + count_insert(ops.skip(1))
    }
}

/// Number of delete operations in a script.
pub open spec fn count_delete(ops: Seq<DiffOp>) -> int
    decreases ops.len(),
{
    if ops.len() == 0 {
        0
    } else {
        (match ops[0] {
            DiffOp::Delete(_) => 1int,
            _ => 0int,
        }) + count_delete(ops.skip(1))
    }
}

/// Length of a longest common subsequence of `a` and `b`.
pub open spec fn lcs_len(a: Seq<Seq<char>>, b: Seq<Seq<char>>) -> int
    decreases a.len() + b.len(),
{
    if a.len() == 0 || b.len() == 0 {
        0
    } else if a[0] == b[0] {
        1 + lcs_len(a.skip(1), b.skip(1))
    } else {
        let x = lcs_len(a.skip(1), b);
        let y = lcs_len(a, b.skip(1));
        if x >= y {
            x
        } else {
            y
        }
    }
}

/// `ops` is a correct minimal change script from `a` to `b`.
pub open spec fn is_line_diff(ops: Seq<DiffOp>, a: Seq<Seq<char>>, b: Seq<Seq<char>>) -> bool {
    &&& src_lines(ops) == a
    &&& dst_lines(ops) == b
    &&& count_equal(ops) == lcs_len(a, b)
}

/// Spec-level image of one operation: its kind and the text of its line.
pub enum ScriptOp {
    Keep(Seq<char>),
    Remove(Seq<char>),
    Add(Seq<char>),
}

/// The image of one operation.
pub open spec fn op_view(op: DiffOp) -> ScriptOp {
    match op {
        DiffOp::Equal(s) => ScriptOp::Keep(s@),
        DiffOp::Delete(s) => ScriptOp::Remove(s@),
        DiffOp::Insert(s) => ScriptOp::Add(s@),
    }
}

/// The image of a whole script: everything observable about it.
pub open spec fn script_view(ops: Seq<DiffOp>) -> Seq<ScriptOp> {
    ops.map_values(|op: DiffOp| op_view(op))
}

/// The one canonical change script from `a` to `b`: keep equal heads
/// greedily; otherwise remove before add, preferring the side whose
/// remainder preserves the longer common subsequence. This makes the diff
/// a deterministic function of the two snapshots.
pub open spec fn canonical_diff(a: Seq<Seq<char>>, b: Seq<Seq<char>>) -> Seq<ScriptOp>
    decreases a.len() + b.len(),
{
    if a.len() == 0 && b.len() == 0 {
        Seq::empty()
    } else if a.len() > 0 && b.len() > 0 && a[0] == b[0] {
        seq![ScriptOp::Keep(a[0])] + canonical_diff(a.skip(1), b.skip(1))
    } else if b.len() == 0 || (a.len() > 0 && lcs_len(a.skip(1), b) >= lcs_len(a, b.skip(1))) {
        seq![ScriptOp::Remove(a[0])] + canonical_diff(a.skip(1), b)
    } else {
        seq![ScriptOp::Add(b[0])] + canonical_diff(a, b.skip(1))
    }
}

/// Text of a script image: one line per operation, tagged with a leading
/// space, `-` or `+`.
pub open spec fn render_script(s: Seq<ScriptOp>) -> Seq<char>
    decreases s.len(),
{
    if s.len() == 0 {
        Seq::empty()
    } else {
        (match s[0] {
            ScriptOp::Keep(l) => seq![' '] + l,
            ScriptOp::Remove(l) => seq!['-'] + l,
            ScriptOp::Add(l) => seq!['+'] + l,
        }) + seq!['\n'] + render_script(s.skip(1))
    }
}

proof fn lemma_script_push(ops: Seq<DiffOp>, op: DiffOp)
    ensures
        script_view(ops.push(op)) == script_view(ops) + seq![op_view(op)],
{
    assert(script_view(ops.push(op)) =~= script_view(ops) + seq![op_view(op)]);
}

/// The rendered text of a script is a function of its image.
pub proof fn lemma_render_via_script(ops: Seq<DiffOp>)
    ensures
        render_from(ops) == render_script(script_view(ops)),
    decreases ops.len(),
{
    if ops.len() > 0 {
        assert(script_view(ops)[0] == op_view(ops[0]));
        assert(script_view(ops).skip(1) =~= script_view(ops.skip(1)));
        lemma_render_via_script(ops.skip(1));
    }
}

/// Two scripts with the same image render identically and agree on every
/// count.
proof fn lemma_script_determines_output(ops1: Seq<DiffOp>, ops2: Seq<DiffOp>)
    requires
        script_view(ops1) == script_view(ops2),
    ensures
        render_from(ops1) == render_from(ops2),
        count_equal(ops1) == count_equal(ops2),
        count_insert(ops1) == count_insert(ops2),
        count_delete(ops1) == count_delete(ops2),
    decreases ops1.len(),
{
    assert(script_view(ops1).len() == ops1.len());
    assert(script_view(ops2).len() == ops2.len());
    if ops1.len() > 0 {
        assert(script_view(ops1)[0] == op_view(ops1[0]));
        assert(script_view(ops2)[0] == op_view(ops2[0]));
        assert(op_view(ops1[0]) == op_view(ops2[0]));
        assert(script_view(ops1).skip(1) =~= script_view(ops1.skip(1)));
        assert(script_view(ops2).skip(1) =~= script_view(ops2.skip(1)));
        lemma_script_determines_output(ops1.skip(1), ops2.skip(1));
        assert(ops1[0].line() == ops2[0].line());
    }
}

/// Law: the diff is deterministic — any two scripts carrying the canonical
/// image for the same pair of snapshots render the same text and report
/// the same counts, so repeated runs agree.
pub proof fn lemma_diff_deterministic(
    ops1: Seq<DiffOp>,
    ops2: Seq<DiffOp>,
    a: Seq<Seq<char>>,
    b: Seq<Seq<char>>,
)
    requires
        script_view(ops1) == canonical_diff(a, b),
        script_view(ops2) == canonical_diff(a, b),
    ensures
        render_from(ops1) == render_from(ops2),
        count_equal(ops1) == count_equal(ops2),
        count_insert(ops1) == count_insert(ops2),
        count_delete(ops1) == count_delete(ops2),
{
    lemma_script_determines_output(ops1, ops2);
}

pub proof fn lemma_lcs_bounds(a: Seq<Seq<char>>, b: Seq<Seq<char>>)
    ensures
        0 <= lcs_len(a, b),
        lcs_len(a, b) <= a.len(),
        lcs_len(a, b) <= b.len(),
    decreases a.len() + b.len(),
{
    if a.len() == 0 || b.len() == 0 {
    } else if a[0] == b[0] {
        lemma_lcs_bounds(a.skip(1), b.skip(1));
    } else {
        lemma_lcs_bounds(a.skip(1), b);
        lemma_lcs_bounds(a, b.skip(1));
    }
}

/// The longest-common-subsequence length does not depend on the order of
/// its two arguments.
pub proof fn lemma_lcs_symmetric(a: Seq<Seq<char>>, b: Seq<Seq<char>>)
    ensures
        lcs_len(a, b) == lcs_len(b, a),
    decreases a.len() + b.len(),
{
    if a.len() == 0 || b.len() == 0 {
    } else if a[0] == b[0] {
        lemma_lcs_symmetric(a.skip(1), b.skip(1));
    } else {
        lemma_lcs_symmetric(a.skip(1), b);
        lemma_lcs_symmetric(a, b.skip(1));
    }
}

/// Appending one operation extends the reconstructions and counts in the
/// expected way.
proof fn lemma_ops_push(ops: Seq<DiffOp>, op: DiffOp)
    ensures
        src_lines(ops.push(op)) == src_lines(ops) + (match op {
            DiffOp::Insert(_) => Seq::<Seq<char>>::empty(),
            _ => seq![op.line()],
        }),
        dst_lines(ops.push(op)) == dst_lines(ops) + (match op {
            DiffOp::Delete(_) => Seq::<Seq<char>>::empty(),
            _ => seq![op.line()],
        }),
        count_equal(ops.push(op)) == count_equal(ops) + (match op {
            DiffOp::Equal(_) => 1int,
            _ => 0int,
        }),
        count_insert(ops.push(op)) == count_insert(ops) + (match op {
            DiffOp::Insert(_) => 1int,
            _ => 0int,
        }),
        count_delete(ops.push(op)) == count_delete(ops) + (match op {
            DiffOp::Delete(_) => 1int,
            _ => 0int,
        }),
    decreases ops.len(),
{
    let p = ops.push(op);
    let src_tail: Seq<Seq<char>> = match op {
        DiffOp::Insert(_) => Seq::empty(),
        _ => seq![op.line()],
    };
    let dst_tail: Seq<Seq<char>> = match op {
        DiffOp::Delete(_) => Seq::empty(),
        _ => seq![op.line()],
    };
    if ops.len() == 0 {
        assert(p.len() == 1);
        assert(p[0] == op);
        assert(p.skip(1) =~= Seq::<DiffOp>::empty());
        assert(src_lines(p.skip(1)) =~= Seq::<Seq<char>>::empty());
        assert(dst_lines(p.skip(1)) =~= Seq::<Seq<char>>::empty());
        assert(src_lines(ops) =~= Seq::<Seq<char>>::empty());
        assert(dst_lines(ops) =~= Seq::<Seq<char>>::empty());
        assert(src_lines(p) =~= src_lines(ops) + src_tail);
        assert(dst_lines(p) =~= dst_lines(ops) + dst_tail);
        assert(count_equal(p.skip(1)) == 0);
        assert(count_insert(p.skip(1)) == 0);
        assert(count_delete(p.skip(1)) == 0);
    } else {
        assert(p[0] == ops[0]);
        assert(p.skip(1) =~= ops.skip(1).push(op));
        lemma_ops_push(ops.skip(1), op);
        assert(src_lines(p.skip(1)) == src_lines(ops.skip(1)) + src_tail);
        assert(dst_lines(p.skip(1)) == dst_lines(ops.skip(1)) + dst_tail);
        assert(src_lines(p) =~= src_lines(ops) + src_tail);
        assert(dst_lines(p) =~= dst_lines(ops) + dst_tail);
    }
}

/// In a script, equal plus delete operations account for every old line and
/// equal plus insert operations for every new line.
pub proof fn lemma_counts_partition(ops: Seq<DiffOp>)
    ensures
        count_equal(ops) + count_delete(ops) == src_lines(ops).len(),
        count_equal(ops) + count_insert(ops) == dst_lines(ops).len(),
    decreases ops.len(),
{
    if ops.len() > 0 {
        lemma_counts_partition(ops.skip(1));
    }
}

/// Law: diffing in the opposite direction swaps the counts — the insertions
/// of `a` to `b` are exactly the removals of `b` to `a`, and vice versa.
pub proof fn lemma_diff_counts_symmetric(
    ops_ab: Seq<DiffOp>,
    ops_ba: Seq<DiffOp>,
    a: Seq<Seq<char>>,
    b: Seq<Seq<char>>,
)
    requires
        is_line_diff(ops_ab, a, b),
        is_line_diff(ops_ba, b, a),
    ensures
        count_insert(ops_ab) == count_delete(ops_ba),
        count_delete(ops_ab) == count_insert(ops_ba),
{
    lemma_counts_partition(ops_ab);
    lemma_counts_partition(ops_ba);
    lemma_lcs_symmetric(a, b);
}

/// The table rows and columns cover both inputs with one extra border.
spec fn table_wf(t: Seq<Vec<usize>>, n: int, m: int) -> bool {
    &&& t.len() == n + 1
    &&& forall|r: int| 0 <= r <= n ==> (#[trigger] t[r])@.len() == m + 1
}

/// Cell `(r, c)` holds the LCS length of the suffixes from `r` and `c`.
spec fn cell_ok(t: Seq<Vec<usize>>, a: Seq<Seq<char>>, b: Seq<Seq<char>>, r: int, c: int) -> bool {
    t[r]@[c] == lcs_len(a.skip(r), b.skip(c))
}

/// Computes a longest-common-subsequence change script from the lines of
/// `a` to the lines of `b`.
pub fn diff_lines(a: &Vec<String>, b: &Vec<String>) -> (ops: Vec<DiffOp>)
    requires
        a@.len() < usize::MAX,
        b@.len() < usize::MAX,
    ensures
        is_line_diff(ops@, views_of(a@), views_of(b@)),
        script_view(ops@) == canonical_diff(views_of(a@), views_of(b@)),
{
    let ghost av = views_of(a@);
    let ghost bv = views_of(b@);
    let n = a.len();
    let m = b.len();

    // border-padded table of suffix LCS lengths, filled bottom-up
    let mut table: Vec<Vec<usize>> = Vec::new();
    let mut r: usize = 0;
    while r <= n
        invariant
            n < usize::MAX,
            m < usize::MAX,
            table@.len() == r,
            r <= n + 1,
            forall|k: int| 0 <= k < r ==> (#[trigger] table@[k])@.len() == m + 1,
            forall|k: int, c: int|
                0 <= k < r && 0 <= c <= m ==> #[trigger] (table@[k])@[c] == 0,
        decreases n + 1 - r,
    {
        let row: Vec<usize> = vec![0usize; m + 1];
        table.push(row);
        r = r + 1;
    }
    proof {
        assert forall|c: int| 0 <= c <= m implies cell_ok(table@, av, bv, n as int, c) by {
            assert(av.skip(n as int).len() == 0);
        }
        assert forall|k: int| 0 <= k <= n implies cell_ok(table@, av, bv, k, m as int) by {
            assert(bv.skip(m as int).len() == 0);
        }
    }

    let mut i: usize = n;
    while i > 0
        invariant
            n < usize::MAX,
            m < usize::MAX,
            n == a@.len(),
            m == b@.len(),
            av == views_of(a@),
            bv == views_of(b@),
            i <= n,
            table_wf(table@, n as int, m as int),
            forall|k: int, c: int|
                i <= k <= n && 0 <= c <= m ==> cell_ok(table@, av, bv, k, c),
            forall|k: int| 0 <= k <= n ==> cell_ok(table@, av, bv, k, m as int),
        decreases i,
    {
        i = i - 1;
        let mut j: usize = m;
        while j > 0
            invariant
                n < usize::MAX,
                m < usize::MAX,
                n == a@.len(),
                m == b@.len(),
                av == views_of(a@),
                bv == views_of(b@),
                i < n,
                j <= m,
                table_wf(table@, n as int, m as int),
                forall|k: int, c: int|
                    i < k <= n && 0 <= c <= m ==> cell_ok(table@, av, bv, k, c),
                forall|c: int| j <= c <= m ==> cell_ok(table@, av, bv, i as int, c),
                forall|k: int| 0 <= k <= n ==> cell_ok(table@, av, bv, k, m as int),
            decreases j,
        {
            j = j - 1;
            proof {
                assert(av.skip(i as int)[0] == av[i as int]);
                assert(bv.skip(j as int)[0] == bv[j as int]);
                assert(av.skip(i as int).skip(1) =~= av.skip(i as int + 1));
                assert(bv.skip(j as int).skip(1) =~= bv.skip(j as int + 1));
                lemma_lcs_bounds(av.skip(i as int + 1), bv.skip(j as int + 1));
                lemma_lcs_bounds(av.skip(i as int + 1), bv.skip(j as int));
                lemma_lcs_bounds(av.skip(i as int), bv.skip(j as int + 1));
                assert(cell_ok(table@, av, bv, i as int + 1, j as int + 1));
                assert(cell_ok(table@, av, bv, i as int + 1, j as int));
                assert(cell_ok(table@, av, bv, i as int, j as int + 1));
                assert(av[i as int] == a@[i as int]@);
                assert(bv[j as int] == b@[j as int]@);
            }
            let v: usize = if a[i] == b[j] {
                table[i + 1][j + 1] + 1
            } else {
                let x = table[i + 1][j];
                let y = table[i][j + 1];
                if x >= y {
                    x
                } else {
                    y
                }
            };
            proof {
                assert(v == lcs_len(av.skip(i as int), bv.skip(j as int)));
            }
            let ghost t0 = table@;
            table[i][j] = v;
            proof {
                assert(table@[i as int]@ =~= t0[i as int]@.update(j as int, v));
                assert forall|k: int, c: int|
                    i < k <= n && 0 <= c <= m implies cell_ok(table@, av, bv, k, c) by {
                    assert(cell_ok(t0, av, bv, k, c));
                    assert(table@[k] == t0[k]);
                }
                assert forall|c: int| j <= c <= m implies cell_ok(table@, av, bv, i as int, c) by {
                    if c != j {
                        assert(cell_ok(t0, av, bv, i as int, c));
                        assert(table@[i as int]@[c] == t0[i as int]@[c]);
                    }
                }
                assert forall|k: int| 0 <= k <= n implies cell_ok(table@, av, bv, k, m as int) by {
                    assert(cell_ok(t0, av, bv, k, m as int));
                    if k != i {
                        assert(table@[k] == t0[k]);
                    } else {
                        assert(table@[i as int]@[m as int] == t0[i as int]@[m as int]);
                    }
                }
            }
        }
    }

    // walk the table from the top-left corner, emitting the script
    let mut ops: Vec<DiffOp> = Vec::new();
    let mut i: usize = 0;
    let mut j: usize = 0;
    proof {
        assert(av.skip(0) =~= av);
        assert(bv.skip(0) =~= bv);
        assert(av.take(0) =~= Seq::<Seq<char>>::empty());
        assert(bv.take(0) =~= Seq::<Seq<char>>::empty());
        assert(script_view(ops@) =~= Seq::<ScriptOp>::empty());
        assert(Seq::<ScriptOp>::empty() + canonical_diff(av, bv) =~= canonical_diff(av, bv));
    }
    while i < n || j < m
        invariant
            n == a@.len(),
            m == b@.len(),
            av == views_of(a@),
            bv == views_of(b@),
            i <= n,
            j <= m,
            table_wf(table@, n as int, m as int),
            forall|k: int, c: int|
                0 <= k <= n && 0 <= c <= m ==> cell_ok(table@, av, bv, k, c),
            src_lines(ops@) == av.take(i as int),
            dst_lines(ops@) == bv.take(j as int),
            count_equal(ops@) + lcs_len(av.skip(i as int), bv.skip(j as int)) == lcs_len(av, bv),
            script_view(ops@) + canonical_diff(av.skip(i as int), bv.skip(j as int))
                == canonical_diff(av, bv),
        decreases (n - i) + (m - j),
    {
        proof {
            if i < n {
                assert(av.skip(i as int)[0] == av[i as int]);
                assert(av.skip(i as int).skip(1) =~= av.skip(i as int + 1));
                assert(av[i as int] == a@[i as int]@);
            }
            if j < m {
                assert(bv.skip(j as int)[0] == bv[j as int]);
                assert(bv.skip(j as int).skip(1) =~= bv.skip(j as int + 1));
                assert(bv[j as int] == b@[j as int]@);
            }
            if i < n && j < m {
                assert(cell_ok(table@, av, bv, i as int + 1, j as int));
                assert(cell_ok(table@, av, bv, i as int, j as int + 1));
                assert(cell_ok(table@, av, bv, i as int + 1, j as int + 1));
            }
        }
        let ghost ops0 = ops@;
        if i < n && j < m && a[i] == b[j] {
            let op = DiffOp::Equal(a[i].clone());
            proof {
                lemma_ops_push(ops0, op);
                lemma_script_push(ops0, op);
                assert(canonical_diff(av.skip(i as int), bv.skip(j as int)) == seq![
                    ScriptOp::Keep(av[i as int]),
                ] + canonical_diff(av.skip(i as int + 1), bv.skip(j as int + 1)));
            }
            ops.push(op);
            proof {
                assert(src_lines(ops@) =~= av.take(i as int + 1));
                assert(dst_lines(ops@) =~= bv.take(j as int + 1));
                assert(script_view(ops@) + canonical_diff(
                    av.skip(i as int + 1),
                    bv.skip(j as int + 1),
                ) =~= script_view(ops0) + canonical_diff(av.skip(i as int), bv.skip(j as int)));
            }
            i = i + 1;
            j = j + 1;
        } else if j >= m || (i < n && table[i + 1][j] >= table[i][j + 1]) {
            let op = DiffOp::Delete(a[i].clone());
            proof {
                lemma_ops_push(ops0, op);
                lemma_script_push(ops0, op);
                if j >= m {
                    assert(lcs_len(av.skip(i as int), bv.skip(j as int)) == 0);
                    assert(lcs_len(av.skip(i as int + 1), bv.skip(j as int)) == 0);
                    assert(bv.skip(j as int).len() == 0);
                }
                assert(canonical_diff(av.skip(i as int), bv.skip(j as int)) == seq![
                    ScriptOp::Remove(av[i as int]),
                ] + canonical_diff(av.skip(i as int + 1), bv.skip(j as int)));
            }
            ops.push(op);
            proof {
                assert(src_lines(ops@) =~= av.take(i as int + 1));
                assert(dst_lines(ops@) =~= bv.take(j as int));
                assert(script_view(ops@) + canonical_diff(av.skip(i as int + 1), bv.skip(j as int))
                    =~= script_view(ops0) + canonical_diff(av.skip(i as int), bv.skip(j as int)));
            }
            i = i + 1;
        } else {
            let op = DiffOp::Insert(b[j].clone());
            proof {
                lemma_ops_push(ops0, op);
                lemma_script_push(ops0, op);
                if i >= n {
                    assert(lcs_len(av.skip(i as int), bv.skip(j as int)) == 0);
                    assert(lcs_len(av.skip(i as int), bv.skip(j as int + 1)) == 0);
                    assert(av.skip(i as int).len() == 0);
                }
                assert(canonical_diff(av.skip(i as int), bv.skip(j as int)) == seq![
                    ScriptOp::Add(bv[j as int]),
                ] + canonical_diff(av.skip(i as int), bv.skip(j as int + 1)));
            }
            ops.push(op);
            proof {
                assert(src_lines(ops@) =~= av.take(i as int));
                assert(dst_lines(ops@) =~= bv.take(j as int + 1));
                assert(script_view(ops@) + canonical_diff(av.skip(i as int), bv.skip(j as int + 1))
                    =~= script_view(ops0) + canonical_diff(av.skip(i as int), bv.skip(j as int)));
            }
            j = j + 1;
        }
    }
    proof {
        assert(av.take(n as int) =~= av);
        assert(bv.take(m as int) =~= bv);
        assert(av.skip(n as int).len() == 0);
        assert(bv.skip(m as int).len() == 0);
        assert(canonical_diff(av.skip(n as int), bv.skip(m as int)) =~= Seq::<ScriptOp>::empty());
        assert(script_view(ops@) + Seq::<ScriptOp>::empty() =~= script_view(ops@));
    }
    ops
}

/// Counts the insert operations of a script.
pub fn count_insertions(ops: &Vec<DiffOp>) -> (r: usize)
    ensures
        r == count_insert(ops@),
{
    let mut i: usize = 0;
    let mut acc: usize = 0;
    proof {
        assert(ops@.skip(0) =~= ops@);
        lemma_count_bounds(ops@);
    }
    while i < ops.len()
        invariant
            i <= ops@.len(),
            acc + count_insert(ops@.skip(i as int)) == count_insert(ops@),
            0 <= acc <= i,
        decreases ops@.len() - i,
    {
        proof {
            assert(ops@.skip(i as int)[0] == ops@[i as int]);
            assert(ops@.skip(i as int).skip(1) =~= ops@.skip(i as int + 1));
            lemma_count_bounds(ops@.skip(i as int + 1));
        }
        if matches!(&ops[i], DiffOp::Insert(_)) {
            acc = acc + 1;
        }
        i = i + 1;
    }
    proof {
        assert(ops@.skip(ops@.len() as int) =~= Seq::<DiffOp>::empty());
    }
    acc
}

/// Counts the delete operations of a script.
pub fn count_removals(ops: &Vec<DiffOp>) -> (r: usize)
    ensures
        r == count_delete(ops@),
{
    let mut i: usize = 0;
    let mut acc: usize = 0;
    proof {
        assert(ops@.skip(0) =~= ops@);
        lemma_count_bounds(ops@);
    }
    while i < ops.len()
        invariant
            i <= ops@.len(),
            acc + count_delete(ops@.skip(i as int)) == count_delete(ops@),
            0 <= acc <= i,
        decreases ops@.len() - i,
    {
        proof {
            assert(ops@.skip(i as int)[0] == ops@[i as int]);
            assert(ops@.skip(i as int).skip(1) =~= ops@.skip(i as int + 1));
            lemma_count_bounds(ops@.skip(i as int + 1));
        }
        if matches!(&ops[i], DiffOp::Delete(_)) {
            acc = acc + 1;
        }
        i = i + 1;
    }
    proof {
        assert(ops@.skip(ops@.len() as int) =~= Seq::<DiffOp>::empty());
    }
    acc
}

proof fn lemma_count_bounds(ops: Seq<DiffOp>)
    ensures
        0 <= count_insert(ops) <= ops.len(),
        0 <= count_delete(ops) <= ops.len(),
        0 <= count_equal(ops) <= ops.len(),
    decreases ops.len(),
{
    if ops.len() > 0 {
        lemma_count_bounds(ops.skip(1));
    }
}

/// Text of a change script: one line per operation, tagged with a leading
/// space, `-` or `+`.
pub open spec fn render_from(ops: Seq<DiffOp>) -> Seq<char>
    decreases ops.len(),
{
    if ops.len() == 0 {
        Seq::empty()
    } else {
        let tag: Seq<char> = match ops[0] {
            DiffOp::Equal(_) => seq![' '],
            DiffOp::Delete(_) => seq!['-'],
            DiffOp::Insert(_) => seq!['+'],
        };
        tag + ops[0].line() + seq!['\n'] + render_from(ops.skip(1))
    }
}

/// Renders a change script as tagged text.
pub fn render_ops(ops: &Vec<DiffOp>) -> (r: String)
    ensures
        r@ == render_from(ops@),
{
    let mut out = String::new();
    let mut i: usize = 0;
    proof {
        assert(ops@.skip(0) =~= ops@);
    }
    while i < ops.len()
        invariant
            i <= ops@.len(),
            out@ + render_from(ops@.skip(i as int)) == render_from(ops@),
        decreases ops@.len() - i,
    {
        proof {
            assert(ops@.skip(i as int)[0] == ops@[i as int]);
            assert(ops@.skip(i as int).skip(1) =~= ops@.skip(i as int + 1));
        }
        let ghost out0 = out@;
        let ghost tag: Seq<char> = match ops@[i as int] {
            DiffOp::Equal(_) => seq![' '],
            DiffOp::Delete(_) => seq!['-'],
            DiffOp::Insert(_) => seq!['+'],
        };
        match &ops[i] {
            DiffOp::Equal(s) => {
                crate::text::push_char(&mut out, ' ');
                out.append(s.as_str());
            },
            DiffOp::Delete(s) => {
                crate::text::push_char(&mut out, '-');
                out.append(s.as_str());
            },
            DiffOp::Insert(s) => {
                crate::text::push_char(&mut out, '+');
                out.append(s.as_str());
            },
        }
        crate::text::push_char(&mut out, '\n');
        proof {
            assert(out@ =~= out0 + tag + ops@[i as int].line() + seq!['\n']);
            assert(out@ + render_from(ops@.skip(i as int + 1)) =~= out0 + render_from(
                ops@.skip(i as int),
            ));
        }
        i = i + 1;
    }
    proof {
        assert(ops@.skip(ops@.len() as int) =~= Seq::<DiffOp>::empty());
        assert(out@ + Seq::<char>::empty() =~= out@);
    }
    out
}

} // verus!
