//! Aligns the epi-info table with the sample table and left-joins them on
//! the sample identifier.

use vstd::prelude::*;
use vstd::string::StringExecFns;
use crate::table::{Column, Table, TableView, ColumnView, strings_view, first_index, fill_cell, lemma_index, lemma_index_unique, lemma_first_index_found};
use crate::schema::{minion_renames, rename_pairs, Mode};
use crate::error::PipelineError;

verus! {

broadcast use vstd::seq_lib::group_seq_properties;

/// The renames `ps` applied one after the other.
pub open spec fn renamed_all(t: TableView, ps: Seq<(Seq<char>, Seq<char>)>) -> TableView
    decreases ps.len(),
{
    if ps.len() == 0 {
        t
    } else {
        renamed_all(t.renamed(ps[0].0, ps[0].1), ps.drop_first())
    }
}

/// No name of one pair is a name of another pair, and no pair renames a
/// column to its own name or to a name that another pair renames away.
pub open spec fn independent(ps: Seq<(Seq<char>, Seq<char>)>) -> bool {
    forall|k: int, l: int|
        0 <= k < ps.len() && 0 <= l < ps.len() ==> (#[trigger] ps[k]).0 != (#[trigger] ps[l]).1 && (k
            != l ==> ps[k].0 != ps[l].0 && ps[k].1 != ps[l].1)
}

/// Every pair of `ps` is already dealt with in `t`: its old name is gone or
/// its new name is taken.
pub open spec fn settled(t: TableView, ps: Seq<(Seq<char>, Seq<char>)>) -> bool {
    forall|k: int| 0 <= k < ps.len() ==> !t.has((#[trigger] ps[k]).0) || t.has(ps[k].1)
}

proof fn lemma_renamed_keeps_others(t: TableView, o: Seq<char>, n: Seq<char>, x: Seq<char>)
    requires
        x != o,
        x != n,
    ensures
        t.renamed(o, n).has(x) == t.has(x),
{
    let u = t.renamed(o, n);
    if t.has(o) && !t.has(n) {
        if t.has(x) {
            let j = choose|j: int| 0 <= j < t.columns.len() && #[trigger] t.columns[j].name == x;
            assert(u.columns[j].name == x);
        }
        if u.has(x) {
            let j = choose|j: int| 0 <= j < u.columns.len() && #[trigger] u.columns[j].name == x;
            assert(t.columns[j].name == x);
        }
    }
}

proof fn lemma_renamed_settles(t: TableView, o: Seq<char>, n: Seq<char>)
    ensures
        !t.renamed(o, n).has(o) || t.renamed(o, n).has(n),
{
    let u = t.renamed(o, n);
    if t.has(o) && !t.has(n) {
        let j = choose|j: int| 0 <= j < t.columns.len() && #[trigger] t.columns[j].name == o;
        assert(u.columns[j].name == n);
    }
}

proof fn lemma_renamed_all_keeps_others(t: TableView, ps: Seq<(Seq<char>, Seq<char>)>, x: Seq<char>)
    requires
        forall|k: int| 0 <= k < ps.len() ==> (#[trigger] ps[k]).0 != x && ps[k].1 != x,
    ensures
        renamed_all(t, ps).has(x) == t.has(x),
    decreases ps.len(),
{
    if ps.len() > 0 {
        assert(ps[0].0 != x && ps[0].1 != x);
        lemma_renamed_keeps_others(t, ps[0].0, ps[0].1, x);
        let rest = ps.drop_first();
        assert forall|k: int| 0 <= k < rest.len() implies (#[trigger] rest[k]).0 != x && rest[k].1 != x by {
            assert(rest[k] == ps[k + 1]);
        }
        lemma_renamed_all_keeps_others(t.renamed(ps[0].0, ps[0].1), rest, x);
    }
}

proof fn lemma_renamed_all_settles(t: TableView, ps: Seq<(Seq<char>, Seq<char>)>)
    requires
        independent(ps),
    ensures
        settled(renamed_all(t, ps), ps),
    decreases ps.len(),
{
    if ps.len() > 0 {
        let t1 = t.renamed(ps[0].0, ps[0].1);
        let rest = ps.drop_first();
        assert forall|k: int, l: int| 0 <= k < rest.len() && 0 <= l < rest.len() implies (
        #[trigger] rest[k]).0 != (#[trigger] rest[l]).1 && (k != l ==> rest[k].0 != rest[l].0
            && rest[k].1 != rest[l].1) by {
            assert(rest[k] == ps[k + 1] && rest[l] == ps[l + 1]);
            assert(ps[k + 1].0 != ps[l + 1].1);
        }
        lemma_renamed_all_settles(t1, rest);
        lemma_renamed_settles(t, ps[0].0, ps[0].1);
        let t2 = renamed_all(t1, rest);
        assert forall|k: int| 0 <= k < rest.len() implies (#[trigger] rest[k]).0 != ps[0].0 && rest[k].1
            != ps[0].0 by {
            assert(rest[k] == ps[k + 1]);
            assert(ps[k + 1].0 != ps[0].0);
            assert(ps[k + 1].1 != ps[0].0);
        }
        lemma_renamed_all_keeps_others(t1, rest, ps[0].0);
        assert forall|k: int| 0 <= k < rest.len() implies (#[trigger] rest[k]).0 != ps[0].1 && rest[k].1
            != ps[0].1 by {
            assert(rest[k] == ps[k + 1]);
            assert(ps[k + 1].0 != ps[0].1);
            assert(ps[k + 1].1 != ps[0].1);
        }
        lemma_renamed_all_keeps_others(t1, rest, ps[0].1);
        assert forall|k: int| 0 <= k < ps.len() implies !t2.has((#[trigger] ps[k]).0) || t2.has(ps[k].1) by {
            if k > 0 {
                assert(ps[k] == rest[k - 1]);
            }
        }
    }
}

proof fn lemma_settled_renames_nothing(t: TableView, ps: Seq<(Seq<char>, Seq<char>)>)
    requires
        settled(t, ps),
    ensures
        renamed_all(t, ps) == t,
    decreases ps.len(),
{
    if ps.len() > 0 {
        assert(!t.has(ps[0].0) || t.has(ps[0].1));
        let rest = ps.drop_first();
        assert forall|k: int| 0 <= k < rest.len() implies !t.has((#[trigger] rest[k]).0) || t.has(rest[k].1) by {
            assert(rest[k] == ps[k + 1]);
        }
        lemma_settled_renames_nothing(t, rest);
    }
}

/// Renaming is idempotent: applying a set of independent renames a second
/// time changes nothing.
pub proof fn renames_twice_same_as_once(t: TableView, ps: Seq<(Seq<char>, Seq<char>)>)
    requires
        independent(ps),
    ensures
        renamed_all(renamed_all(t, ps), ps) == renamed_all(t, ps),
{
    lemma_renamed_all_settles(t, ps);
    lemma_settled_renames_nothing(renamed_all(t, ps), ps);
}

/// The epi-info renames of the minION schema are independent of each other.
pub proof fn minion_renames_independent()
    ensures
        independent(minion_renames()),
{
    reveal_strlit("DateFinalCellCultureResults");
    reveal_strlit("DateFinalCultureResult");
    reveal_strlit("DateFinalrRTPCRResults");
    reveal_strlit("DateFinalITDresult");
    reveal_strlit("FinalITDResult");
    reveal_strlit("ITDResult");
    reveal_strlit("SequenceName");
    reveal_strlit("SangerSequenceID");
    reveal_strlit("DateSeqResult");
    reveal_strlit("DateSangerResultGenerated");
    let ps = minion_renames();
    assert("DateFinalCultureResult"@[9] != "DateFinalrRTPCRResults"@[9]);
    assert forall|k: int, l: int| 0 <= k < ps.len() && 0 <= l < ps.len() implies (#[trigger] ps[k]).0
        != (#[trigger] ps[l]).1 && (k != l ==> ps[k].0 != ps[l].0 && ps[k].1 != ps[l].1) by {
        assert(ps[0].0.len() == 27 && ps[0].1.len() == 22);
        assert(ps[1].0.len() == 22 && ps[1].1.len() == 18);
        assert(ps[2].0.len() == 14 && ps[2].1.len() == 9);
        assert(ps[3].0.len() == 12 && ps[3].1.len() == 16);
        assert(ps[4].0.len() == 13 && ps[4].1.len() == 25);
        assert(ps[0].1[9] != ps[1].0[9]);
    }
}

/// Applying the minION renames twice gives the same table as applying them
/// once.
pub proof fn minion_renames_idempotent(t: TableView)
    ensures
        renamed_all(renamed_all(t, minion_renames()), minion_renames()) == renamed_all(
            t,
            minion_renames(),
        ),
{
    minion_renames_independent();
    renames_twice_same_as_once(t, minion_renames());
}

/// Applies the minION epi-info renames: each old name becomes the new one
/// where the old column exists and the new one does not yet.
pub fn apply_minion_renames(t: &mut Table)
    requires
        old(t)@.wf(),
    ensures
        final(t)@ == renamed_all(old(t)@, minion_renames()),
        final(t)@.wf(),
{
    let pairs = rename_pairs();
    let ghost ps = minion_renames();
    let ghost start = t@;
    assert(ps.subrange(0, ps.len() as int) =~= ps);
    for k in 0..pairs.len()
        invariant
            t@.wf(),
            pairs@.len() == ps.len(),
            ps == minion_renames(),
            forall|q: int| 0 <= q < pairs@.len() ==> (#[trigger] pairs@[q]).0@ == ps[q].0 && pairs@[q].1@ == ps[q].1,
            renamed_all(start, ps) == renamed_all(t@, ps.subrange(k as int, ps.len() as int)),
    {
        let ghost rest = ps.subrange(k as int, ps.len() as int);
        assert(rest.drop_first() =~= ps.subrange(k + 1, ps.len() as int));
        assert(rest[0] == ps[k as int]);
        t.rename(&pairs[k].0, &pairs[k].1);
    }
    assert(ps.subrange(ps.len() as int, ps.len() as int) =~= Seq::<(Seq<char>, Seq<char>)>::empty());
}

/// The epi-info row that a sample key joins to: the first row holding the
/// same key. An empty key joins to nothing.
pub open spec fn join_row(keys: Seq<Seq<char>>, k: Seq<char>) -> Option<int> {
    if k.len() == 0 {
        None
    } else {
        first_index(keys, k)
    }
}

/// A joined cell: the value of the matching epi-info row, or empty.
pub open spec fn joined_cell(cells: Seq<Seq<char>>, rkeys: Seq<Seq<char>>, k: Seq<char>) -> Seq<char> {
    match join_row(rkeys, k) {
        Some(r) => cells[r],
        None => Seq::empty(),
    }
}

/// An epi-info column laid out along the sample rows with keys `lkeys`.
pub open spec fn joined_column(c: ColumnView, lkeys: Seq<Seq<char>>, rkeys: Seq<Seq<char>>) -> ColumnView {
    ColumnView {
        name: c.name,
        cells: Seq::new(lkeys.len(), |i: int| joined_cell(c.cells, rkeys, lkeys[i])),
    }
}

pub open spec fn join_along(lkeys: Seq<Seq<char>>, rkeys: Seq<Seq<char>>) -> spec_fn(ColumnView) -> ColumnView {
    |c: ColumnView| joined_column(c, lkeys, rkeys)
}

pub open spec fn not_named(n: Seq<char>) -> spec_fn(ColumnView) -> bool {
    |c: ColumnView| c.name != n
}

/// Left join of `l` and `r` on `l`'s column `lk` and `r`'s column `rk`:
/// every row of `l` stays, in order; `r`'s columns but `rk` follow `l`'s,
/// holding the first matching row's values or empty cells.
pub open spec fn left_joined(l: TableView, r: TableView, lk: Seq<char>, rk: Seq<char>) -> TableView {
    TableView {
        height: l.height,
        columns: l.columns + r.columns.filter(not_named(rk)).map_values(
            join_along(l.col(lk).cells, r.col(rk).cells),
        ),
    }
}

/// The first row of `keys` that holds the non-empty key `k`.
fn find_row(keys: &Vec<String>, k: &String) -> (r: Option<usize>)
    ensures
        match r {
            Some(x) => join_row(strings_view(keys@), k@) == Some(x as int),
            None => join_row(strings_view(keys@), k@) is None,
        },
{
    if k.as_str().is_empty() {
        return None;
    }
    let ghost ks = strings_view(keys@);
    let mut q: usize = 0;
    while q < keys.len()
        invariant
            ks == strings_view(keys@),
            k@.len() > 0,
            q <= keys@.len(),
            forall|p: int| 0 <= p < q ==> ks[p] != k@,
        decreases keys@.len() - q,
    {
        if keys[q] == *k {
            proof {
                lemma_first_index_found(ks, k@, q as int);
            }
            return Some(q);
        }
        q = q + 1;
    }
    assert(first_index(ks, k@) is None);
    None
}

/// Left-joins `right` onto `left` on `left`'s column `lk` and `right`'s
/// column `rk`; `None` where either key column is missing. Each row of `left`
/// takes the first row of `right` with the same non-empty key.
pub fn left_join(left: Table, right: &Table, lk: &String, rk: &String) -> (r: Option<Table>)
    requires
        left@.wf(),
        right@.wf(),
        forall|j: int|
            0 <= j < right@.columns.len() && right@.columns[j].name != rk@ ==> !left@.has(
                #[trigger] right@.columns[j].name,
            ),
    ensures
        r is Some <==> left@.has(lk@) && right@.has(rk@),
        r matches Some(t) ==> t@ == left_joined(left@, right@, lk@, rk@) && t@.wf(),
{
    let li = match left.position(lk) {
        Some(j) => j,
        None => return None,
    };
    let ri = match right.position(rk) {
        Some(j) => j,
        None => return None,
    };
    let ghost lkeys = left@.col(lk@).cells;
    let ghost rkeys = right@.col(rk@).cells;
    let ghost f = join_along(lkeys, rkeys);
    let ghost pred = not_named(rk@);
    let mut rows: Vec<Option<usize>> = Vec::new();
    for i in 0..left.height
        invariant
            left@.wf(),
            0 <= li < left@.columns.len(),
            0 <= ri < right@.columns.len(),
            lkeys == left@.columns[li as int].cells,
            rkeys == right@.columns[ri as int].cells,
            rows@.len() == i,
            forall|q: int| 0 <= q < i ==> match #[trigger] rows@[q] {
                Some(x) => join_row(rkeys, lkeys[q]) == Some(x as int),
                None => join_row(rkeys, lkeys[q]) is None,
            },
    {
        assert(left@.columns[li as int].cells.len() == left@.height);
        rows.push(find_row(&right.columns[ri].cells, &left.columns[li].cells[i]));
    }
    let mut extra: Vec<Column> = Vec::new();
    for j in 0..right.columns.len()
        invariant
            left@.wf(),
            right@.wf(),
            0 <= li < left@.columns.len(),
            0 <= ri < right@.columns.len(),
            right@.columns[ri as int].name == rk@,
            lkeys == left@.columns[li as int].cells,
            rkeys == right@.columns[ri as int].cells,
            lkeys.len() == left@.height,
            rkeys.len() == right@.height,
            f == join_along(lkeys, rkeys),
            pred == not_named(rk@),
            rows@.len() == left.height,
            forall|q: int| 0 <= q < left.height ==> match #[trigger] rows@[q] {
                Some(x) => join_row(rkeys, lkeys[q]) == Some(x as int),
                None => join_row(rkeys, lkeys[q]) is None,
            },
            extra@.map_values(|c: Column| c@) == right@.columns.subrange(0, j as int).filter(pred).map_values(f),
            forall|a: int| 0 <= a < extra@.len() ==> (#[trigger] extra@[a])@.cells.len() == left.height,
            forall|a: int| 0 <= a < extra@.len() ==> (#[trigger] extra@[a])@.name != rk@ && right@.names().subrange(0, j as int).contains(
                extra@[a]@.name),
            forall|a: int, b: int| 0 <= a < b < extra@.len() ==> (#[trigger] extra@[a])@.name != (
            #[trigger] extra@[b])@.name,
    {
        let ghost prefix = right@.columns.subrange(0, j as int);
        assert(right@.columns.subrange(0, j + 1) =~= prefix.push(right@.columns[j as int]));
        assert(right@.names().subrange(0, j + 1) =~= right@.names().subrange(0, j as int).push(
            right@.columns[j as int].name,
        ));
        proof {
            prefix.lemma_filter_push(right@.columns[j as int], pred);
        }
        let ghost before = extra@;
        if j != ri {
            proof {
                lemma_index_unique(right@, rk@, ri as int);
                assert(right@.columns[j as int].name != right@.columns[ri as int].name);
            }
            let col = &right.columns[j];
            let mut cells: Vec<String> = Vec::new();
            for i in 0..left.height
                invariant
                    right@.wf(),
                    0 <= j < right@.columns.len(),
                    col@ == right@.columns[j as int],
                    rkeys.len() == right@.height,
                    lkeys.len() == left.height,
                    rows@.len() == left.height,
                    forall|q: int| 0 <= q < left.height ==> match #[trigger] rows@[q] {
                        Some(x) => join_row(rkeys, lkeys[q]) == Some(x as int),
                        None => join_row(rkeys, lkeys[q]) is None,
                    },
                    cells@.len() == i,
                    forall|q: int| 0 <= q < i ==> (#[trigger] cells@[q])@ == joined_cell(col@.cells, rkeys, lkeys[q]),
            {
                match rows[i] {
                    Some(x) => {
                        assert(col@.cells.len() == right@.height);
                        cells.push(col.cells[x].clone());
                    },
                    None => {
                        cells.push(String::new());
                    },
                }
            }
            let newc = Column { name: col.name.clone(), cells };
            assert(newc@.cells =~= joined_column(col@, lkeys, rkeys).cells);
            assert forall|a: int| 0 <= a < before.len() implies before[a]@.name != col@.name by {
                let k = choose|k: int| 0 <= k < j && right@.names().subrange(0, j as int)[k] == before[a]@.name;
                assert(right@.columns[k].name != right@.columns[j as int].name);
            }
            extra.push(newc);
            assert(extra@.map_values(|c: Column| c@) =~= before.map_values(|c: Column| c@).push(
                f(right@.columns[j as int]),
            ));
            assert forall|a: int| 0 <= a < extra@.len() implies (#[trigger] extra@[a])@.name != rk@ && right@.names().subrange(
                0,
                j + 1,
            ).contains(extra@[a]@.name) by {
                if a < before.len() {
                    let k = choose|k: int|
                        0 <= k < j && right@.names().subrange(0, j as int)[k] == before[a]@.name;
                    assert(right@.names().subrange(0, j + 1)[k] == before[a]@.name);
                } else {
                    assert(right@.names().subrange(0, j + 1)[j as int] == extra@[a]@.name);
                }
            }
        } else {
            assert forall|a: int| 0 <= a < extra@.len() implies (#[trigger] extra@[a])@.name != rk@ && right@.names().subrange(
                0,
                j + 1,
            ).contains(extra@[a]@.name) by {
                let k = choose|k: int|
                    0 <= k < j && right@.names().subrange(0, j as int)[k] == extra@[a]@.name;
                assert(right@.names().subrange(0, j + 1)[k] == extra@[a]@.name);
            }
        }
    }
    assert(right@.columns.subrange(0, right@.columns.len() as int) =~= right@.columns);
    let Table { height, columns } = left;
    let ghost lcols = columns@;
    let mut columns = columns;
    let ghost ex = extra@;
    columns.append(&mut extra);
    let t = Table { height, columns };
    proof {
        let expect = left_joined(left@, right@, lk@, rk@);
        assert(t@.columns =~= expect.columns);
        assert forall|a: int, b: int| 0 <= a < b < t@.columns.len() implies #[trigger] t@.columns[a].name
            != #[trigger] t@.columns[b].name by {
            if b >= lcols.len() {
                let eb = b - lcols.len();
                assert(t@.columns[b] == ex[eb]@);
                let k = choose|k: int| 0 <= k < right@.names().len() && right@.names()[k] == ex[eb]@.name;
                if a < lcols.len() {
                    assert(right@.columns[k].name != rk@);
                    assert(!left@.has(right@.columns[k].name));
                    assert(left@.columns[a].name == t@.columns[a].name);
                } else {
                    assert(t@.columns[a] == ex[a - lcols.len()]@);
                }
            }
        }
    }
    Some(t)
}

/// `EPID` takes `EpidNumber`'s value wherever it is empty, and `EpidNumber`
/// is dropped; a table that lacks either column is left as it is.
pub open spec fn epid_merged(t: TableView) -> TableView {
    if t.has("EPID"@) && t.has("EpidNumber"@) {
        let e = t.index("EPID"@);
        let n = t.index("EpidNumber"@);
        let ecol = t.columns[e];
        let ncol = t.columns[n];
        let merged = ColumnView {
            name: ecol.name,
            cells: Seq::new(ecol.cells.len(), |i: int| fill_cell(ecol.cells[i], ncol.cells[i])),
        };
        TableView { height: t.height, columns: t.columns.update(e, merged).remove(n) }
    } else {
        t
    }
}

/// Copies `EpidNumber` into empty `EPID` cells and drops `EpidNumber`.
pub fn merge_epid(t: &mut Table)
    requires
        old(t)@.wf(),
    ensures
        final(t)@ == epid_merged(old(t)@),
        final(t)@.wf(),
        final(t)@.height == old(t)@.height,
{
    let ghost before = t@;
    let epid = String::from_str("EPID");
    let number = String::from_str("EpidNumber");
    let (e, n) = match (t.position(&epid), t.position(&number)) {
        (Some(e), Some(n)) => (e, n),
        _ => return,
    };
    proof {
        reveal_strlit("EPID");
        reveal_strlit("EpidNumber");
        lemma_index(before, "EPID"@);
        lemma_index(before, "EpidNumber"@);
        assert("EPID"@.len() == 4);
        assert(before.columns[e as int].name != before.columns[n as int].name);
    }
    let mut cells: Vec<String> = Vec::new();
    for i in 0..t.height
        invariant
            t@ == before,
            before.wf(),
            0 <= e < before.columns.len(),
            0 <= n < before.columns.len(),
            cells@.len() == i,
            forall|q: int| 0 <= q < i ==> (#[trigger] cells@[q])@ == fill_cell(
                before.columns[e as int].cells[q],
                before.columns[n as int].cells[q],
            ),
    {
        assert(before.columns[e as int].cells.len() == before.height);
        assert(before.columns[n as int].cells.len() == before.height);
        if t.columns[e].cells[i].as_str().is_empty() {
            cells.push(t.columns[n].cells[i].clone());
        } else {
            cells.push(t.columns[e].cells[i].clone());
        }
    }
    let ghost ecol = before.columns[e as int];
    let ghost ncol = before.columns[n as int];
    let ghost merged = ColumnView {
        name: ecol.name,
        cells: Seq::new(ecol.cells.len(), |i: int| fill_cell(ecol.cells[i], ncol.cells[i])),
    };
    let old_col = t.columns.remove(e);
    let newc = Column { name: old_col.name, cells };
    assert(ecol.cells.len() == before.height);
    assert(newc@.cells =~= merged.cells);
    t.columns.insert(e, newc);
    assert(t@.columns =~= before.columns.update(e as int, merged));
    t.columns.remove(n);
    proof {
        let expect = epid_merged(before);
        assert(t@.columns =~= before.columns.update(e as int, merged).remove(n as int));
        assert(t@.columns =~= expect.columns);
        assert forall|a: int, b: int| 0 <= a < b < t@.columns.len() implies #[trigger] t@.columns[a].name
            != #[trigger] t@.columns[b].name by {
            let a0 = if a < n { a } else { a + 1 };
            let b0 = if b < n { b } else { b + 1 };
            assert(t@.columns[a].name == before.columns[a0].name);
            assert(t@.columns[b].name == before.columns[b0].name);
        }
    }
}

/// What the reconciler makes of a sample table and an epi-info table: under
/// minION the epi-info renames come first; the sample table loses every
/// column that the epi-info table also has; the two are left-joined on
/// `sample` = `ICLabID`; then `EpidNumber` is folded into `EPID`.
pub open spec fn reconciled(sample: TableView, epi: TableView, mode: Mode) -> TableView {
    epid_merged(left_joined(sample.without(aligned(epi, mode).names()), aligned(epi, mode), "sample"@, "ICLabID"@))
}

/// The epi-info table under the names of `mode`.
pub open spec fn aligned(epi: TableView, mode: Mode) -> TableView {
    if mode == Mode::MinIon {
        renamed_all(epi, minion_renames())
    } else {
        epi
    }
}

/// Merges the sample table with the optional epi-info table. Without an
/// epi-info table the sample table comes back unchanged. The join fails
/// exactly when the trimmed sample table lacks `sample` or the aligned
/// epi-info table lacks `ICLabID`; the error lists both tables' columns.
/// Every sample row is kept, once.
pub fn reconcile(sample: Table, epi: Option<Table>, mode: Mode) -> (r: Result<Table, PipelineError>)
    requires
        sample@.wf(),
        epi matches Some(e) ==> e@.wf(),
    ensures
        epi is None ==> (r matches Ok(t) && t@ == sample@),
        epi matches Some(e) ==> {
            let s1 = sample@.without(aligned(e@, mode).names());
            let e1 = aligned(e@, mode);
            &&& (r is Ok <==> s1.has("sample"@) && e1.has("ICLabID"@))
            &&& (r matches Ok(t) ==> t@ == reconciled(sample@, e@, mode))
            &&& (r matches Err(err) ==> (err matches PipelineError::Merge { sample_columns, epi_columns }
                && strings_view(sample_columns@) == s1.names() && strings_view(epi_columns@) == e1.names()))
        },
        r matches Ok(t) ==> t@.wf() && t@.height == sample@.height,
{
    let mut e = match epi {
        None => return Ok(sample),
        Some(e) => e,
    };
    if mode == Mode::MinIon {
        apply_minion_renames(&mut e);
    }
    let epi_names = e.column_names();
    let trimmed = sample.without(&epi_names);
    proof {
        let ns = e@.names();
        assert forall|j: int| 0 <= j < e@.columns.len() && e@.columns[j].name != "ICLabID"@ implies !trimmed@.has(
            #[trigger] e@.columns[j].name,
        ) by {
            if trimmed@.has(e@.columns[j].name) {
                let k = choose|k: int| 0 <= k < trimmed@.columns.len() && #[trigger] trimmed@.columns[k].name
                    == e@.columns[j].name;
                sample@.columns.lemma_filter_pred(crate::table::unlisted(ns), k);
                assert(ns[j] == e@.columns[j].name);
            }
        }
    }
    let sample_names = trimmed.column_names();
    let key = String::from_str("sample");
    let epi_key = String::from_str("ICLabID");
    match left_join(trimmed, &e, &key, &epi_key) {
        Some(mut t) => {
            merge_epid(&mut t);
            Ok(t)
        },
        None => Err(PipelineError::Merge { sample_columns: sample_names, epi_columns: epi_names }),
    }
}

/// Join completeness: reconciling keeps exactly the sample table's rows,
/// whatever the epi-info table holds (each sample row takes at most its
/// first matching epi-info row).
pub proof fn reconciled_keeps_sample_rows(sample: TableView, epi: TableView, mode: Mode)
    ensures
        reconciled(sample, epi, mode).height == sample.height,
        left_joined(sample, epi, "sample"@, "ICLabID"@).height == sample.height,
{
}

} // verus!
