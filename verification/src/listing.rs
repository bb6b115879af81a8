//! Lists: which rows of a table they show, and in which order.
use vstd::prelude::*;

verus! {

/// What a list goes by: a row is known by its key, and the rows of a higher rank come first.
pub trait Listed: Sized {
    /// The id by which the table keeps the row.
    spec fn key(self) -> u128;

    /// What the rows are ordered by.
    spec fn rank(self) -> int;
}

/// Whether the rows of a higher rank come first.
pub open spec fn in_order<T: Listed>(rows: Seq<T>) -> bool {
    forall|i: int, j: int|
        0 <= i <= j < rows.len() ==> (#[trigger] rows[i]).rank() >= (#[trigger] rows[j]).rank()
}

/// Whether each row comes once.
pub open spec fn each_once<T: Listed>(rows: Seq<T>) -> bool {
    forall|i: int, j: int|
        0 <= i < j < rows.len() ==> (#[trigger] rows[i]).key() != (#[trigger] rows[j]).key()
}

/// Whether a table keeps its rows by their keys.
pub open spec fn is_keyed<T: Listed>(table: Map<u128, T>) -> bool {
    forall|id: u128| #[trigger] table.contains_key(id) ==> table[id].key() == id
}

/// Whether `rows` are the rows of `table` that are wanted: all of them, each once.
pub open spec fn collects<T: Listed>(
    table: Map<u128, T>,
    rows: Seq<T>,
    wanted: spec_fn(T) -> bool,
) -> bool {
    &&& forall|i: int|
        0 <= i < rows.len() ==> table.contains_key((#[trigger] rows[i]).key())
            && table[rows[i].key()] == rows[i] && wanted(rows[i])
    &&& forall|id: u128| #[trigger]
        table.contains_key(id) && wanted(table[id]) ==> rows.contains(table[id])
    &&& each_once(rows)
}

/// Whether `rows` are the rows of `table` that are wanted: all of them, each once, in order.
pub open spec fn lists<T: Listed>(
    table: Map<u128, T>,
    rows: Seq<T>,
    wanted: spec_fn(T) -> bool,
) -> bool {
    collects(table, rows, wanted) && in_order(rows)
}

/// Two ways to collect the same rows differ in their order alone.
pub proof fn collections_agree<T: Listed>(
    table: Map<u128, T>,
    a: Seq<T>,
    b: Seq<T>,
    wanted: spec_fn(T) -> bool,
)
    requires
        collects(table, a, wanted),
        collects(table, b, wanted),
    ensures
        a.to_multiset() == b.to_multiset(),
{
    broadcast use vstd::seq_lib::group_to_multiset_ensures;
    broadcast use vstd::multiset::group_multiset_axioms;

    collected_within(table, a, b, wanted);
    collected_within(table, b, a, wanted);
    assert(a.no_duplicates());
    assert(b.no_duplicates());
    a.lemma_multiset_has_no_duplicates();
    b.lemma_multiset_has_no_duplicates();
    assert forall|row: T| a.to_multiset().count(row) == b.to_multiset().count(row) by {
        assert(a.contains(row) == b.contains(row));
        if a.contains(row) {
            assert(a.to_multiset().contains(row));
            assert(b.to_multiset().contains(row));
        }
    }
    assert(a.to_multiset() =~= b.to_multiset());
}

proof fn collected_within<T: Listed>(
    table: Map<u128, T>,
    a: Seq<T>,
    b: Seq<T>,
    wanted: spec_fn(T) -> bool,
)
    requires
        collects(table, a, wanted),
        collects(table, b, wanted),
    ensures
        forall|row: T| #[trigger] a.contains(row) ==> b.contains(row),
{
    assert forall|row: T| #[trigger] a.contains(row) implies b.contains(row) by {
        let i = choose|i: int| 0 <= i < a.len() && a[i] == row;
        assert(table.contains_key(a[i].key()));
    }
}

/// How many of the rows come before one of the given rank.
spec fn place<T: Listed>(rows: Seq<T>, rank: int) -> int
    decreases rows.len(),
{
    if rows.len() == 0 {
        0
    } else if rows.last().rank() >= rank {
        rows.len() as int
    } else {
        place(rows.drop_last(), rank)
    }
}

proof fn place_parts<T: Listed>(rows: Seq<T>, rank: int)
    requires
        in_order(rows),
    ensures
        0 <= place(rows, rank) <= rows.len(),
        forall|i: int| 0 <= i < place(rows, rank) ==> (#[trigger] rows[i]).rank() >= rank,
        forall|i: int| place(rows, rank) <= i < rows.len() ==> (#[trigger] rows[i]).rank() < rank,
    decreases rows.len(),
{
    if rows.len() > 0 && rows.last().rank() < rank {
        let init = rows.drop_last();
        assert forall|i: int, j: int| 0 <= i <= j < init.len() implies (#[trigger] init[i]).rank()
            >= (#[trigger] init[j]).rank() by {
            assert(init[i] == rows[i] && init[j] == rows[j]);
        }
        place_parts(init, rank);
        assert forall|i: int| 0 <= i < place(rows, rank) implies (#[trigger] rows[i]).rank()
            >= rank by {
            assert(init[i] == rows[i]);
        }
        assert forall|i: int| place(rows, rank) <= i < rows.len() implies (
        #[trigger] rows[i]).rank() < rank by {
            if i < init.len() {
                assert(init[i] == rows[i]);
            }
        }
    }
}

/// There is a list for every table, whatever is wanted.
pub proof fn listings_exist<T: Listed>(
    table: Map<u128, T>,
    wanted: spec_fn(T) -> bool,
) -> (rows: Seq<T>)
    requires
        table.dom().finite(),
        is_keyed(table),
    ensures
        lists(table, rows, wanted),
    decreases table.dom().len(),
{
    if table.dom().len() == 0 {
        assert forall|id: u128| !(#[trigger] table.contains_key(id)) by {
            assert(table.dom() =~= Set::<u128>::empty());
        }
        Seq::empty()
    } else {
        let id = table.dom().choose();
        let rest = table.remove(id);
        let others = listings_exist(rest, wanted);
        let row = table[id];
        assert(table.contains_key(id));
        if wanted(row) {
            let k = place(others, row.rank());
            place_parts(others, row.rank());
            let rows = others.insert(k, row);
            assert(rows[k] == row);
            assert forall|i: int| 0 <= i < others.len() implies rows.contains(
                #[trigger] others[i],
            ) by {
                if i < k {
                    assert(rows[i] == others[i]);
                } else {
                    assert(rows[i + 1] == others[i]);
                }
            }
            assert forall|i: int| 0 <= i < rows.len() implies table.contains_key(
                (#[trigger] rows[i]).key(),
            ) && table[rows[i].key()] == rows[i] && wanted(rows[i]) by {
                if i < k {
                    assert(rows[i] == others[i]);
                } else if i > k {
                    assert(rows[i] == others[i - 1]);
                }
            }
            assert forall|other: u128| #[trigger]
                table.contains_key(other) && wanted(table[other]) implies rows.contains(
                table[other],
            ) by {
                if other != id {
                    assert(rest.contains_key(other));
                    let i = choose|i: int| 0 <= i < others.len() && others[i] == rest[other];
                    assert(rows.contains(others[i]));
                }
            }
            assert forall|i: int, j: int| 0 <= i < j < rows.len() implies (#[trigger] rows[i]).key()
                != (#[trigger] rows[j]).key() by {
                let a = if i < k { i } else { i - 1 };
                let b = if j < k { j } else { j - 1 };
                if i != k {
                    assert(rows[i] == others[a]);
                    assert(rest.contains_key(others[a].key()));
                }
                if j != k {
                    assert(rows[j] == others[b]);
                    assert(rest.contains_key(others[b].key()));
                }
            }
            assert forall|i: int, j: int| 0 <= i <= j < rows.len() implies (
            #[trigger] rows[i]).rank() >= (#[trigger] rows[j]).rank() by {
                let a = if i < k { i } else { i - 1 };
                let b = if j < k { j } else { j - 1 };
                if i != k {
                    assert(rows[i] == others[a]);
                }
                if j != k {
                    assert(rows[j] == others[b]);
                }
            }
            rows
        } else {
            assert forall|other: u128| #[trigger]
                table.contains_key(other) && wanted(table[other]) implies others.contains(
                table[other],
            ) by {
                assert(rest.contains_key(other));
            }
            assert forall|i: int| 0 <= i < others.len() implies table.contains_key(
                (#[trigger] others[i]).key(),
            ) && table[others[i].key()] == others[i] by {
                assert(rest.contains_key(others[i].key()));
            }
            others
        }
    }
}

} // verus!
