use vstd::prelude::*;

verus! {

/// The rows of a vector of rows, each as a sequence of values.
pub open spec fn grid<V>(rows: Seq<Vec<V>>) -> Seq<Seq<V>> {
    Seq::new(rows.len(), |i: int| rows[i]@)
}

/// The values that row `i` holds in the selected columns, in the order of the
/// selection.
pub open spec fn selected_row<V>(columns: Seq<Seq<V>>, selected: Seq<int>, i: int) -> Seq<V> {
    Seq::new(selected.len(), |j: int| columns[selected[j]][i])
}

/// The first `n` rows, each cut down to the selected columns.
pub open spec fn selected_rows<V>(columns: Seq<Seq<V>>, selected: Seq<int>, n: int) -> Seq<Seq<V>> {
    Seq::new(n as nat, |i: int| selected_row(columns, selected, i))
}

/// The columns with every selected column emptied.
pub open spec fn without_selected<V>(columns: Seq<Seq<V>>, selected: Seq<int>) -> Seq<Seq<V>> {
    Seq::new(
        columns.len(),
        |c: int|
            if selected.contains(c) {
                Seq::empty()
            } else {
                columns[c]
            },
    )
}

/// The columns with every selected column filled from `rows`: the column
/// selected at place `j` takes the `j`-th value of each row. Columns that are not
/// selected stay as they are.
pub open spec fn with_rows<V>(columns: Seq<Seq<V>>, selected: Seq<int>, rows: Seq<Seq<V>>) -> Seq<
    Seq<V>,
> {
    Seq::new(
        columns.len(),
        |c: int|
            if selected.contains(c) {
                Seq::new(rows.len(), |i: int| rows[i][selected.index_of(c)])
            } else {
                columns[c]
            },
    )
}

/// Every row of `rows` after `update`.
pub open spec fn updated_rows<V>(rows: Seq<Seq<V>>, update: spec_fn(Seq<V>) -> Seq<V>) -> Seq<
    Seq<V>,
> {
    Seq::new(rows.len(), |i: int| update(rows[i]))
}

/// Reading the selected columns back after they were filled from `rows` gives
/// `rows` again, and in a selection without repeats each selected column has
/// one place.
pub proof fn lemma_with_rows_round_trip<V>(
    columns: Seq<Seq<V>>,
    selected: Seq<int>,
    rows: Seq<Seq<V>>,
)
    requires
        selected.no_duplicates(),
        forall|j: int| 0 <= j < selected.len() ==> 0 <= #[trigger] selected[j] < columns.len(),
        forall|i: int| 0 <= i < rows.len() ==> (#[trigger] rows[i]).len() == selected.len(),
    ensures
        selected_rows(with_rows(columns, selected, rows), selected, rows.len() as int) == rows,
{
    let filled = with_rows(columns, selected, rows);
    let back = selected_rows(filled, selected, rows.len() as int);
    assert forall|i: int| 0 <= i < rows.len() implies #[trigger] back[i] == rows[i] by {
        assert forall|j: int| 0 <= j < selected.len() implies back[i][j] == rows[i][j] by {
            assert(selected.contains(selected[j]));
            let h = selected.index_of(selected[j]);
            assert(h == j);
        }
        assert(back[i] =~= rows[i]);
    }
    assert(back =~= rows);
}

/// Moves the items of `items` into a new vector in the opposite order.
pub fn reversed<T>(items: Vec<T>) -> (turned: Vec<T>)
    ensures
        turned@.len() == items@.len(),
        forall|i: int| 0 <= i < items@.len() ==> turned@[i] == items@[items@.len() - 1 - i],
{
    let mut items = items;
    let ghost before = items@;
    let mut turned: Vec<T> = Vec::new();
    while items.len() > 0
        invariant
            items@.len() + turned@.len() == before.len(),
            items@ == before.take(items@.len() as int),
            forall|i: int| 0 <= i < turned@.len() ==> turned@[i] == before[before.len() - 1 - i],
        decreases items@.len(),
    {
        let item = items.pop().unwrap();
        turned.push(item);
    }
    turned
}

} // verus!
