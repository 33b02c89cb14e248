//! An all-string table: ordered, uniquely named columns of equal length.
//! An absent value is held as the empty string.

use vstd::prelude::*;

verus! {

broadcast use vstd::seq_lib::group_seq_properties;

/// One named column of cells.
#[derive(Debug)]
pub struct Column {
    pub name: String,
    pub cells: Vec<String>,
}

/// Columns in order; `height` is the row count shared by every column.
#[derive(Debug)]
pub struct Table {
    pub height: usize,
    pub columns: Vec<Column>,
}

/// The mathematical value of a column.
pub struct ColumnView {
    pub name: Seq<char>,
    pub cells: Seq<Seq<char>>,
}

/// The mathematical value of a table.
pub struct TableView {
    pub height: nat,
    pub columns: Seq<ColumnView>,
}

pub open spec fn strings_view(v: Seq<String>) -> Seq<Seq<char>> {
    v.map_values(|s: String| s@)
}

impl View for Column {
    type V = ColumnView;

    open spec fn view(&self) -> ColumnView {
        ColumnView { name: self.name@, cells: strings_view(self.cells@) }
    }
}

impl View for Table {
    type V = TableView;

    open spec fn view(&self) -> TableView {
        TableView { height: self.height as nat, columns: self.columns@.map_values(|c: Column| c@) }
    }
}

/// Index of the first occurrence of `x` in `s`, if any.
pub open spec fn first_index(s: Seq<Seq<char>>, x: Seq<char>) -> Option<int> {
    if exists|r: int| 0 <= r < s.len() && s[r] == x && forall|q: int| 0 <= q < r ==> s[q] != x {
        Some(
            choose|r: int|
                0 <= r < s.len() && s[r] == x && forall|q: int| 0 <= q < r ==> s[q] != x,
        )
    } else {
        None
    }
}

/// Holds of a column whose name is not in `names`.
pub open spec fn unlisted(names: Seq<Seq<char>>) -> spec_fn(ColumnView) -> bool {
    |c: ColumnView| !names.contains(c.name)
}

/// Holds of a name that is not a column of `t`.
pub open spec fn absent_from(t: TableView) -> spec_fn(Seq<char>) -> bool {
    |n: Seq<char>| !t.has(n)
}

/// A cell after filling with `v`: an empty cell takes `v`, any other stays.
pub open spec fn fill_cell(x: Seq<char>, v: Seq<char>) -> Seq<char> {
    if x.len() == 0 {
        v
    } else {
        x
    }
}

impl TableView {
    pub open spec fn names(self) -> Seq<Seq<char>> {
        self.columns.map_values(|c: ColumnView| c.name)
    }

    pub open spec fn has(self, n: Seq<char>) -> bool {
        exists|j: int| 0 <= j < self.columns.len() && #[trigger] self.columns[j].name == n
    }

    /// Every column has `height` cells and no two columns share a name.
    pub open spec fn wf(self) -> bool {
        &&& forall|j: int| 0 <= j < self.columns.len() ==> #[trigger] self.columns[j].cells.len() == self.height
        &&& forall|i: int, j: int|
            0 <= i < j < self.columns.len() ==> #[trigger] self.columns[i].name != #[trigger] self.columns[j].name
    }

    /// The column named `n` (meaningful where `has(n)`).
    pub open spec fn col(self, n: Seq<char>) -> ColumnView {
        self.columns[self.index(n)]
    }

    /// The position of the column named `n` (meaningful where `has(n)`).
    pub open spec fn index(self, n: Seq<char>) -> int {
        choose|j: int| 0 <= j < self.columns.len() && self.columns[j].name == n
    }

    /// The column `old` renamed to `new`, only where `old` exists and `new`
    /// does not.
    pub open spec fn renamed(self, old: Seq<char>, new: Seq<char>) -> TableView {
        if self.has(old) && !self.has(new) {
            TableView {
                height: self.height,
                columns: self.columns.map_values(
                    |c: ColumnView|
                        if c.name == old {
                            ColumnView { name: new, cells: c.cells }
                        } else {
                            c
                        },
                ),
            }
        } else {
            self
        }
    }

    /// The columns whose names are not listed in `names`, in order.
    pub open spec fn without(self, names: Seq<Seq<char>>) -> TableView {
        TableView {
            height: self.height,
            columns: self.columns.filter(unlisted(names)),
        }
    }

    /// Exactly the columns `names`, in that order.
    pub open spec fn selected(self, names: Seq<Seq<char>>) -> TableView {
        TableView { height: self.height, columns: names.map_values(|n: Seq<char>| self.col(n)) }
    }

    /// The listed names that are not columns of the table, in list order.
    pub open spec fn missing(self, names: Seq<Seq<char>>) -> Seq<Seq<char>> {
        names.filter(absent_from(self))
    }

    /// Every empty cell of column `n` set to `v` (no change where `n` is not
    /// a column).
    pub open spec fn filled(self, n: Seq<char>, v: Seq<char>) -> TableView {
        TableView {
            height: self.height,
            columns: self.columns.map_values(
                |c: ColumnView|
                    if c.name == n {
                        ColumnView {
                            name: c.name,
                            cells: c.cells.map_values(|x: Seq<char>| fill_cell(x, v)),
                        }
                    } else {
                        c
                    },
            ),
        }
    }
}

pub proof fn lemma_first_index_found(s: Seq<Seq<char>>, x: Seq<char>, r: int)
    requires
        0 <= r < s.len(),
        s[r] == x,
        forall|q: int| 0 <= q < r ==> s[q] != x,
    ensures
        first_index(s, x) == Some(r),
{
    let c = choose|c: int| 0 <= c < s.len() && s[c] == x && forall|q: int| 0 <= q < c ==> s[q] != x;
    if c < r {
        assert(s[c] != x);
    } else if r < c {
        assert(s[r] != x);
    }
}

pub proof fn lemma_index(t: TableView, n: Seq<char>)
    requires
        t.has(n),
    ensures
        0 <= t.index(n) < t.columns.len(),
        t.columns[t.index(n)].name == n,
{
}

pub proof fn lemma_index_unique(t: TableView, n: Seq<char>, j: int)
    requires
        t.wf(),
        0 <= j < t.columns.len(),
        t.columns[j].name == n,
    ensures
        t.has(n),
        t.index(n) == j,
{
    assert(t.columns[j].name == n);
    let k = t.index(n);
    if k < j {
        assert(t.columns[k].name != t.columns[j].name);
    } else if j < k {
        assert(t.columns[j].name != t.columns[k].name);
    }
}

/// A copy of a list of strings.
pub fn copy_strings(v: &Vec<String>) -> (r: Vec<String>)
    ensures
        strings_view(r@) == strings_view(v@),
{
    let mut out: Vec<String> = Vec::new();
    for i in 0..v.len()
        invariant
            out@.len() == i,
            i <= v@.len(),
            forall|k: int| 0 <= k < i ==> #[trigger] out@[k]@ == v@[k]@,
    {
        out.push(v[i].clone());
    }
    assert(strings_view(out@) =~= strings_view(v@));
    out
}

impl Column {
    /// A copy of the column.
    pub fn duplicate(&self) -> (r: Column)
        ensures
            r@ == self@,
    {
        Column { name: self.name.clone(), cells: copy_strings(&self.cells) }
    }
}

impl Table {
    /// A table of `height` rows and no columns.
    pub fn new(height: usize) -> (r: Table)
        ensures
            r@ == (TableView { height: height as nat, columns: Seq::empty() }),
            r@.wf(),
    {
        let r = Table { height, columns: Vec::new() };
        assert(r@.columns =~= Seq::<ColumnView>::empty());
        r
    }

    /// The column names, in order.
    pub fn column_names(&self) -> (r: Vec<String>)
        ensures
            strings_view(r@) == self@.names(),
    {
        let mut out: Vec<String> = Vec::new();
        for j in 0..self.columns.len()
            invariant
                out@.len() == j,
                j <= self.columns@.len(),
                forall|k: int| 0 <= k < j ==> #[trigger] out@[k]@ == self.columns@[k].name@,
        {
            out.push(self.columns[j].name.clone());
        }
        assert(strings_view(out@) =~= self@.names());
        out
    }

    /// Where the column named `name` stands.
    pub fn position(&self, name: &String) -> (r: Option<usize>)
        requires
            self@.wf(),
        ensures
            r matches Some(j) ==> self@.has(name@) && j == self@.index(name@),
            r is None ==> !self@.has(name@),
    {
        let mut j: usize = 0;
        while j < self.columns.len()
            invariant
                self@.wf(),
                j <= self.columns@.len(),
                forall|k: int| 0 <= k < j ==> self@.columns[k].name != name@,
            decreases self.columns@.len() - j,
        {
            if self.columns[j].name == *name {
                proof {
                    lemma_index_unique(self@, name@, j as int);
                }
                return Some(j);
            }
            j = j + 1;
        }
        None
    }

    /// Renames column `from` to `to` where `from` exists and `to` does not;
    /// otherwise the table is left as it is.
    pub fn rename(&mut self, from: &String, to: &String)
        requires
            old(self)@.wf(),
        ensures
            final(self)@ == old(self)@.renamed(from@, to@),
            final(self)@.wf(),
    {
        let ghost before = self@;
        let at = self.position(from);
        let clash = self.position(to);
        match (at, clash) {
            (Some(j), None) => {
                let c = self.columns.remove(j);
                self.columns.insert(j, Column { name: to.clone(), cells: c.cells });
                proof {
                    let expect = before.renamed(from@, to@);
                    assert forall|k: int| 0 <= k < self@.columns.len() implies self@.columns[k] == expect.columns[k] by {
                        if k != j {
                            if before.columns[k].name == from@ {
                                lemma_index_unique(before, from@, k);
                            }
                        }
                    }
                    assert(self@.columns =~= expect.columns);
                    assert forall|a: int, b: int| 0 <= a < b < self@.columns.len() implies
                        #[trigger] self@.columns[a].name != #[trigger] self@.columns[b].name by {
                        if a == j as int {
                            assert(before.columns[b].name != to@);
                        } else if b == j as int {
                            assert(before.columns[a].name != to@);
                        }
                    }
                }
            },
            _ => {},
        }
    }

    /// The columns whose names are not in `names`, in their order.
    pub fn without(&self, names: &Vec<String>) -> (r: Table)
        requires
            self@.wf(),
        ensures
            r@ == self@.without(strings_view(names@)),
            r@.wf(),
    {
        let ghost ns = strings_view(names@);
        let ghost pred = unlisted(ns);
        let mut out: Vec<Column> = Vec::new();
        for j in 0..self.columns.len()
            invariant
                self@.wf(),
                ns == strings_view(names@),
                pred == unlisted(ns),
                j <= self.columns@.len(),
                out@.map_values(|c: Column| c@) == self@.columns.subrange(0, j as int).filter(pred),
                forall|a: int| 0 <= a < out@.len() ==> (#[trigger] out@[a])@.cells.len() == self.height,
                forall|a: int| 0 <= a < out@.len() ==> self@.names().subrange(0, j as int).contains(
                    (#[trigger] out@[a])@.name),
                forall|a: int, b: int| 0 <= a < b < out@.len() ==> (#[trigger] out@[a])@.name != (
                #[trigger] out@[b])@.name,
        {
            let ghost prefix = self@.columns.subrange(0, j as int);
            assert(self@.columns.subrange(0, j + 1) =~= prefix.push(self@.columns[j as int]));
            assert(self@.names().subrange(0, j + 1) =~= self@.names().subrange(0, j as int).push(
                self@.columns[j as int].name,
            ));
            if !list_contains(names, &self.columns[j].name) {
                let ghost before = out@;
                assert forall|a: int| 0 <= a < before.len() implies before[a]@.name
                    != self@.columns[j as int].name by {
                    let k = choose|k: int|
                        0 <= k < j && self@.names().subrange(0, j as int)[k] == before[a]@.name;
                    assert(self@.columns[k].name != self@.columns[j as int].name);
                }
                out.push(self.columns[j].duplicate());
                assert(out@.map_values(|c: Column| c@) =~= before.map_values(|c: Column| c@).push(
                    self@.columns[j as int],
                ));
                assert forall|a: int| 0 <= a < out@.len() implies self@.names().subrange(
                    0,
                    j + 1,
                ).contains((#[trigger] out@[a])@.name) by {
                    if a < before.len() {
                        let k = choose|k: int|
                            0 <= k < j && self@.names().subrange(0, j as int)[k] == before[a]@.name;
                        assert(self@.names().subrange(0, j + 1)[k] == before[a]@.name);
                    } else {
                        assert(self@.names().subrange(0, j + 1)[j as int] == out@[a]@.name);
                    }
                }
            } else {
                assert forall|a: int| 0 <= a < out@.len() implies self@.names().subrange(
                    0,
                    j + 1,
                ).contains((#[trigger] out@[a])@.name) by {
                    let k = choose|k: int|
                        0 <= k < j && self@.names().subrange(0, j as int)[k] == out@[a]@.name;
                    assert(self@.names().subrange(0, j + 1)[k] == out@[a]@.name);
                }
            }
            proof {
                prefix.lemma_filter_push(self@.columns[j as int], pred);
            }
        }
        assert(self@.columns.subrange(0, self@.columns.len() as int) =~= self@.columns);
        let r = Table { height: self.height, columns: out };
        r
    }

    /// Exactly the columns `names`, in that order.
    pub fn select(&self, names: &Vec<String>) -> (r: Table)
        requires
            self@.wf(),
            forall|k: int| 0 <= k < names@.len() ==> self@.has(#[trigger] names@[k]@),
        ensures
            r@ == self@.selected(strings_view(names@)),
            forall|q: int| 0 <= q < r@.columns.len() ==> #[trigger] r@.columns[q].cells.len() == r@.height,
            strings_view(names@).no_duplicates() ==> r@.wf(),
    {
        let ghost ns = strings_view(names@);
        let mut out: Vec<Column> = Vec::new();
        for k in 0..names.len()
            invariant
                self@.wf(),
                ns == strings_view(names@),
                forall|q: int| 0 <= q < names@.len() ==> self@.has(#[trigger] names@[q]@),
                out@.len() == k,
                forall|q: int| 0 <= q < k ==> (#[trigger] out@[q])@ == self@.col(ns[q]),
        {
            match self.position(&names[k]) {
                Some(j) => {
                    out.push(self.columns[j].duplicate());
                },
                None => {
                    assert(self@.has(names@[k as int]@));
                },
            }
        }
        let r = Table { height: self.height, columns: out };
        assert(r@.columns =~= self@.selected(ns).columns);
        proof {
            assert forall|q: int| 0 <= q < r@.columns.len() implies #[trigger] r@.columns[q].cells.len()
                == r@.height by {
                lemma_index(self@, ns[q]);
            }
            if ns.no_duplicates() {
                assert forall|a: int, b: int| 0 <= a < b < r@.columns.len() implies #[trigger] r@.columns[a].name
                    != #[trigger] r@.columns[b].name by {
                    lemma_index(self@, ns[a]);
                    lemma_index(self@, ns[b]);
                }
            }
        }
        r
    }

    /// The names of `names` that are not columns, in list order.
    pub fn missing(&self, names: &Vec<String>) -> (r: Vec<String>)
        requires
            self@.wf(),
        ensures
            strings_view(r@) == self@.missing(strings_view(names@)),
    {
        let ghost ns = strings_view(names@);
        let ghost pred = absent_from(self@);
        let mut out: Vec<String> = Vec::new();
        for k in 0..names.len()
            invariant
                self@.wf(),
                ns == strings_view(names@),
                pred == absent_from(self@),
                strings_view(out@) == ns.subrange(0, k as int).filter(pred),
        {
            let ghost before = out@;
            assert(ns.subrange(0, k + 1) =~= ns.subrange(0, k as int).push(ns[k as int]));
            proof {
                ns.subrange(0, k as int).lemma_filter_push(ns[k as int], pred);
            }
            if self.position(&names[k]).is_none() {
                out.push(names[k].clone());
                assert(strings_view(out@) =~= strings_view(before).push(ns[k as int]));
            }
        }
        assert(ns.subrange(0, ns.len() as int) =~= ns);
        out
    }

    /// Sets every empty cell of column `name` to `value`; cells that hold a
    /// value, and every other column, are left as they are.
    pub fn fill_empty(&mut self, name: &String, value: &String)
        requires
            old(self)@.wf(),
        ensures
            final(self)@ == old(self)@.filled(name@, value@),
            final(self)@.wf(),
    {
        let ghost before = self@;
        match self.position(name) {
            Some(j) => {
                let c = self.columns.remove(j);
                let mut cells: Vec<String> = Vec::new();
                for i in 0..c.cells.len()
                    invariant
                        cells@.len() == i,
                        forall|q: int| 0 <= q < i ==> (#[trigger] cells@[q])@ == fill_cell(c.cells@[q]@, value@),
                {
                    if c.cells[i].as_str().is_empty() {
                        cells.push(value.clone());
                    } else {
                        cells.push(c.cells[i].clone());
                    }
                }
                self.columns.insert(j, Column { name: c.name, cells });
                proof {
                    let expect = before.filled(name@, value@);
                    assert forall|k: int| 0 <= k < self@.columns.len() implies self@.columns[k] == expect.columns[k] by {
                        if k != j {
                            if before.columns[k].name == name@ {
                                lemma_index_unique(before, name@, k);
                            }
                        } else {
                            assert(self@.columns[k].cells =~= expect.columns[k].cells);
                        }
                    }
                    assert(self@.columns =~= expect.columns);
                }
            },
            None => {
                proof {
                    assert(self@.columns =~= before.filled(name@, value@).columns);
                }
            },
        }
    }
}

/// Whether `x` is one of `v`.
pub fn list_contains(v: &Vec<String>, x: &String) -> (r: bool)
    ensures
        r == strings_view(v@).contains(x@),
{
    for k in 0..v.len()
        invariant
            forall|q: int| 0 <= q < k ==> v@[q]@ != x@,
    {
        if v[k] == *x {
            assert(strings_view(v@)[k as int] == x@);
            return true;
        }
    }
    false
}

/// Filling never overwrites: a cell that held a value before the fill holds
/// the same value after it, whatever column and value were filled.
pub proof fn fill_never_overwrites(t: TableView, n: Seq<char>, v: Seq<char>, j: int, i: int)
    requires
        0 <= j < t.columns.len(),
        0 <= i < t.columns[j].cells.len(),
        t.columns[j].cells[i].len() > 0,
    ensures
        t.filled(n, v).columns[j].name == t.columns[j].name,
        t.filled(n, v).columns[j].cells[i] == t.columns[j].cells[i],
{
}

/// A table lacks none of the listed names exactly when every listed name is
/// one of its columns.
pub proof fn nothing_missing_iff_superset(t: TableView, names: Seq<Seq<char>>)
    ensures
        t.missing(names).len() == 0 <==> forall|k: int| 0 <= k < names.len() ==> t.has(#[trigger] names[k]),
{
    let pred = absent_from(t);
    if t.missing(names).len() == 0 {
        assert forall|k: int| 0 <= k < names.len() implies t.has(#[trigger] names[k]) by {
            if !t.has(names[k]) {
                names.lemma_filter_contains(pred, k);
            }
        }
    } else {
        let m = t.missing(names);
        names.lemma_filter_pred(pred, 0);
        assert(m.contains(m[0]));
        names.lemma_filter_contains_rev(pred, m[0]);
        let k = choose|k: int| 0 <= k < names.len() && names[k] == m[0];
        assert(!t.has(names[k]));
    }
}

/// Selecting a well-formed table's own columns, in their own order, gives
/// the table back unchanged.
pub proof fn select_own_columns_is_identity(t: TableView, names: Seq<Seq<char>>)
    requires
        t.wf(),
        names == t.names(),
    ensures
        t.selected(names) == t,
{
    assert forall|k: int| 0 <= k < t.columns.len() implies t.selected(names).columns[k] == t.columns[k] by {
        lemma_index_unique(t, names[k], k);
    }
    assert(t.selected(names).columns =~= t.columns);
}

} // verus!
