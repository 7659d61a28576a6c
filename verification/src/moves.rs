//! How the move list lays out a game's moves in rows.
use vstd::prelude::*;

verus! {

/// One row of the move list: the move number, whether it is written `n...` (a row
/// that starts with a black move) rather than `n.`, and the indices of its moves.
#[derive(Clone, Copy, Debug, PartialEq, Eq, Structural)]
pub struct MoveRow {
    pub number: usize,
    pub ellipsis: bool,
    pub first: usize,
    pub second: Option<usize>,
}

/// The rows for moves `i..count`: when black moves first, the first row holds only
/// that move; every other row holds two moves (one at the very end), numbered
/// `i / 2 + 1` after the index of its first move.
pub open spec fn rows_from(count: nat, black_first: bool, i: nat) -> Seq<MoveRow>
    decreases count - i,
{
    if i >= count {
        seq![]
    } else if i == 0 && black_first {
        seq![MoveRow { number: 1, ellipsis: true, first: 0, second: None }] + rows_from(
            count,
            black_first,
            1,
        )
    } else if i + 1 < count {
        seq![
            MoveRow {
                number: (i / 2 + 1) as usize,
                ellipsis: false,
                first: i as usize,
                second: Some((i + 1) as usize),
            },
        ] + rows_from(count, black_first, i + 2)
    } else {
        seq![MoveRow { number: (i / 2 + 1) as usize, ellipsis: false, first: i as usize, second: None }]
    }
}

/// The rows of the move list for `count` moves.
pub fn move_rows(count: usize, black_first: bool) -> (r: Vec<MoveRow>)
    ensures
        r@ == rows_from(count as nat, black_first, 0),
{
    let mut rows: Vec<MoveRow> = Vec::new();
    let mut i: usize = 0;
    while i < count
        invariant
            i <= count,
            rows@ + rows_from(count as nat, black_first, i as nat) == rows_from(
                count as nat,
                black_first,
                0,
            ),
        decreases count - i,
    {
        let ghost before = rows@;
        let ghost i0 = i as nat;
        if i == 0 && black_first {
            rows.push(MoveRow { number: 1, ellipsis: true, first: 0, second: None });
            i = 1;
            assert(rows@ + rows_from(count as nat, black_first, i as nat) =~= before + rows_from(
                count as nat,
                black_first,
                i0,
            ));
        } else if count - i >= 2 {
            rows.push(MoveRow { number: i / 2 + 1, ellipsis: false, first: i, second: Some(i + 1) });
            i = i + 2;
            assert(rows@ + rows_from(count as nat, black_first, i as nat) =~= before + rows_from(
                count as nat,
                black_first,
                i0,
            ));
        } else {
            rows.push(MoveRow { number: i / 2 + 1, ellipsis: false, first: i, second: None });
            i = i + 1;
            assert(rows_from(count as nat, black_first, i as nat) =~= Seq::<MoveRow>::empty());
            assert(rows@ + rows_from(count as nat, black_first, i as nat) =~= before + rows_from(
                count as nat,
                black_first,
                i0,
            ));
        }
    }
    assert(rows@ + rows_from(count as nat, black_first, i as nat) =~= rows@);
    rows
}

/// The indices of the moves in a row.
pub open spec fn row_indices(r: MoveRow) -> Seq<usize> {
    match r.second {
        Some(j) => seq![r.first, j],
        None => seq![r.first],
    }
}

/// The indices of the moves in `rows`, row after row.
pub open spec fn flatten_rows(rows: Seq<MoveRow>) -> Seq<usize>
    decreases rows.len(),
{
    if rows.len() == 0 {
        seq![]
    } else {
        row_indices(rows[0]) + flatten_rows(rows.drop_first())
    }
}

proof fn lemma_flatten_cons(r: MoveRow, rest: Seq<MoveRow>)
    ensures
        flatten_rows(seq![r] + rest) == row_indices(r) + flatten_rows(rest),
{
    assert((seq![r] + rest).drop_first() =~= rest);
}

proof fn lemma_rows_from(count: nat, black_first: bool, i: nat)
    requires
        i <= count <= usize::MAX,
    ensures
        flatten_rows(rows_from(count, black_first, i)) =~= Seq::new(
            (count - i) as nat,
            |j: int| (i + j) as usize,
        ),
    decreases count - i,
{
    if i >= count {
    } else if i == 0 && black_first {
        lemma_rows_from(count, black_first, 1);
        lemma_flatten_cons(
            MoveRow { number: 1, ellipsis: true, first: 0, second: None },
            rows_from(count, black_first, 1),
        );
    } else if i + 1 < count {
        lemma_rows_from(count, black_first, i + 2);
        lemma_flatten_cons(
            MoveRow {
                number: (i / 2 + 1) as usize,
                ellipsis: false,
                first: i as usize,
                second: Some((i + 1) as usize),
            },
            rows_from(count, black_first, i + 2),
        );
    } else {
        let r = MoveRow {
            number: (i / 2 + 1) as usize,
            ellipsis: false,
            first: i as usize,
            second: None,
        };
        lemma_flatten_cons(r, Seq::<MoveRow>::empty());
        assert(seq![r] + Seq::<MoveRow>::empty() =~= seq![r]);
    }
}

/// The move list shows every move once, in the order of the game.
pub proof fn law_rows_list_each_move_once(count: nat, black_first: bool)
    requires
        count <= usize::MAX,
    ensures
        flatten_rows(rows_from(count, black_first, 0)) == Seq::new(count, |i: int| i as usize),
{
    lemma_rows_from(count, black_first, 0);
    assert(Seq::new((count - 0) as nat, |j: int| (0 + j) as usize) =~= Seq::new(
        count,
        |i: int| i as usize,
    ));
}

} // verus!
