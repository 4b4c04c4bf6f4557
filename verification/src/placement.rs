//! Where a fruit may be put: a random cell of the board that nothing sits on.
//!
//! A blacklist entry is `(x, y, tag)`; only its cell counts. The board is the
//! grid `[0, width) x [0, height)`.

use rand::Rng;
use vstd::prelude::*;

verus! {

/// Whether some entry of `blacklist` sits on the cell `(x, y)`.
pub open spec fn occupied(blacklist: Seq<(usize, usize, i32)>, x: int, y: int) -> bool {
    exists|i: int|
        0 <= i < blacklist.len() && (#[trigger] blacklist[i]).0 == x && blacklist[i].1 == y
}

/// The cells that the entries of `blacklist` sit on, each counted once.
pub open spec fn occupied_cells(blacklist: Seq<(usize, usize, i32)>) -> Set<(usize, usize)> {
    Set::new(|c: (usize, usize)| occupied(blacklist, c.0 as int, c.1 as int))
}

/// Whether `c` lies on the board and nothing sits on it.
pub open spec fn is_free(
    blacklist: Seq<(usize, usize, i32)>,
    width: int,
    height: int,
    c: (usize, usize),
) -> bool {
    c.0 < width && c.1 < height && !occupied(blacklist, c.0 as int, c.1 as int)
}

/// Whether every cell of the board has something on it.
pub open spec fn board_full(blacklist: Seq<(usize, usize, i32)>, width: int, height: int) -> bool {
    forall|x: int, y: int|
        0 <= x < width && 0 <= y < height ==> #[trigger] occupied(blacklist, x, y)
}

/// Whether fewer than half as many cells are taken as the board has.
pub open spec fn sparse(blacklist: Seq<(usize, usize, i32)>, width: int, height: int) -> bool {
    occupied_cells(blacklist).len() < (width * height) / 2
}

/// Row by row, left to right: `a` comes strictly before `b`.
pub open spec fn row_major_before(a: (usize, usize), b: (usize, usize)) -> bool {
    a.1 < b.1 || (a.1 == b.1 && a.0 < b.0)
}

/// Adding one entry adds its cell to the occupied cells, and nothing else.
proof fn lemma_occupied_push(s: Seq<(usize, usize, i32)>, e: (usize, usize, i32))
    ensures
        occupied_cells(s.push(e)) == occupied_cells(s).insert((e.0, e.1)),
        forall|x: int, y: int|
            occupied(s.push(e), x, y) <==> (occupied(s, x, y) || (e.0 == x && e.1 == y)),
{
    let t = s.push(e);
    assert forall|x: int, y: int|
        occupied(t, x, y) <==> (occupied(s, x, y) || (e.0 == x && e.1 == y)) by {
        if occupied(s, x, y) {
            let i = choose|i: int| 0 <= i < s.len() && (#[trigger] s[i]).0 == x && s[i].1 == y;
            assert(t[i] == s[i]);
        }
        if e.0 == x && e.1 == y {
            assert(t[s.len() as int] == e);
        }
        if occupied(t, x, y) {
            let i = choose|i: int| 0 <= i < t.len() && (#[trigger] t[i]).0 == x && t[i].1 == y;
            if i < s.len() {
                assert(s[i] == t[i]);
            }
        }
    }
    assert(occupied_cells(t) =~= occupied_cells(s).insert((e.0, e.1)));
}

/// The cells that entries sit on are finitely many.
proof fn lemma_occupied_finite(s: Seq<(usize, usize, i32)>)
    ensures
        occupied_cells(s).finite(),
    decreases s.len(),
{
    if s.len() == 0 {
        assert(occupied_cells(s) =~= Set::<(usize, usize)>::empty());
    } else {
        lemma_occupied_finite(s.drop_last());
        lemma_occupied_push(s.drop_last(), s.last());
        assert(s.drop_last().push(s.last()) =~= s);
    }
}

/// The first `upto` cells of row `y`.
spec fn row_cells(y: usize, upto: int) -> Set<(usize, usize)> {
    Set::new(|c: (usize, usize)| c.1 == y && c.0 < upto)
}

/// The cells of a board.
spec fn board_cells(width: int, height: int) -> Set<(usize, usize)> {
    Set::new(|c: (usize, usize)| c.0 < width && c.1 < height)
}

proof fn lemma_row_len(y: usize, upto: nat)
    requires
        upto <= usize::MAX + 1,
    ensures
        row_cells(y, upto as int).finite(),
        row_cells(y, upto as int).len() == upto,
    decreases upto,
{
    if upto == 0 {
        assert(row_cells(y, 0) =~= Set::<(usize, usize)>::empty());
    } else {
        lemma_row_len(y, (upto - 1) as nat);
        assert(row_cells(y, upto as int) =~= row_cells(y, upto - 1).insert(
            ((upto - 1) as usize, y),
        ));
    }
}

proof fn lemma_board_len(width: usize, height: nat)
    requires
        height <= usize::MAX + 1,
    ensures
        board_cells(width as int, height as int).finite(),
        board_cells(width as int, height as int).len() == width * height,
    decreases height,
{
    if height == 0 {
        assert(board_cells(width as int, 0) =~= Set::<(usize, usize)>::empty());
    } else {
        let below = board_cells(width as int, height - 1);
        let row = row_cells((height - 1) as usize, width as int);
        lemma_board_len(width, (height - 1) as nat);
        lemma_row_len((height - 1) as usize, width as nat);
        assert(board_cells(width as int, height as int) =~= below + row);
        assert(below.disjoint(row));
        vstd::set_lib::lemma_set_disjoint_lens(below, row);
        assert(width * (height - 1) + width == width * height) by (nonlinear_arith);
    }
}

/// A board on which fewer than half the cells are taken is not full.
pub proof fn sparse_board_has_room(blacklist: Seq<(usize, usize, i32)>, width: usize, height: usize)
    requires
        sparse(blacklist, width as int, height as int),
    ensures
        !board_full(blacklist, width as int, height as int),
{
    if board_full(blacklist, width as int, height as int) {
        let taken = occupied_cells(blacklist);
        let board = board_cells(width as int, height as int);
        lemma_occupied_finite(blacklist);
        lemma_board_len(width, height as nat);
        assert forall|c: (usize, usize)| board.contains(c) implies taken.contains(c) by {
            assert(occupied(blacklist, c.0 as int, c.1 as int));
        }
        vstd::set_lib::lemma_len_subset(board, taken);
        assert(width * height >= 0) by (nonlinear_arith);
    }
}

/// The random source: `rand::thread_rng().gen_range(0..n)`. For a non-empty
/// range the call hands back some index below `n`; which one is not stated,
/// and two calls may differ. An empty range makes it panic, so `n` must be
/// positive. The generator seeds itself from the system on first use and
/// panics there if the system has no random source to give; no input decides
/// that, so nothing here rules it out.
#[verifier::external_body]
fn random_below(n: usize) -> (r: usize)
    requires
        n > 0,
    ensures
        r < n,
{
    rand::thread_rng().gen_range(0..n)
}

/// Whether one of the first `end` entries sits on `(x, y)`.
fn occupied_before(blacklist: &[(usize, usize, i32)], end: usize, x: usize, y: usize) -> (r: bool)
    requires
        end <= blacklist@.len(),
    ensures
        r == occupied(blacklist@.take(end as int), x as int, y as int),
{
    let mut i: usize = 0;
    while i < end
        invariant
            i <= end <= blacklist@.len(),
            !occupied(blacklist@.take(i as int), x as int, y as int),
        decreases end - i,
    {
        let e: (usize, usize, i32) = blacklist[i];
        proof {
            assert(blacklist@.take(i as int + 1) =~= blacklist@.take(i as int).push(e));
            lemma_occupied_push(blacklist@.take(i as int), e);
        }
        if e.0 == x && e.1 == y {
            proof {
                let whole = blacklist@.take(end as int);
                assert(whole[i as int] == e);
            }
            return true;
        }
        i += 1;
    }
    false
}

/// Whether some entry of `blacklist` sits on `(x, y)`.
pub fn is_occupied(blacklist: &[(usize, usize, i32)], x: usize, y: usize) -> (r: bool)
    ensures
        r == occupied(blacklist@, x as int, y as int),
{
    proof {
        assert(blacklist@.take(blacklist@.len() as int) =~= blacklist@);
    }
    occupied_before(blacklist, blacklist.len(), x, y)
}

/// How many different cells the entries of `blacklist` sit on.
pub fn count_occupied(blacklist: &[(usize, usize, i32)]) -> (count: usize)
    ensures
        count == occupied_cells(blacklist@).len(),
        occupied_cells(blacklist@).finite(),
        count <= blacklist@.len(),
{
    let n: usize = blacklist.len();
    let mut count: usize = 0;
    let mut i: usize = 0;
    proof {
        assert(occupied_cells(blacklist@.take(0)) =~= Set::<(usize, usize)>::empty());
    }
    while i < n
        invariant
            i <= n,
            n == blacklist@.len(),
            count <= i,
            occupied_cells(blacklist@.take(i as int)).finite(),
            count == occupied_cells(blacklist@.take(i as int)).len(),
        decreases n - i,
    {
        let e: (usize, usize, i32) = blacklist[i];
        let seen: bool = occupied_before(blacklist, i, e.0, e.1);
        proof {
            assert(blacklist@.take(i as int + 1) =~= blacklist@.take(i as int).push(e));
            lemma_occupied_push(blacklist@.take(i as int), e);
        }
        if !seen {
            count += 1;
        }
        i += 1;
    }
    proof {
        assert(blacklist@.take(n as int) =~= blacklist@);
    }
    count
}

/// The free cells of the board, row by row from the top, each row from the
/// left.
pub fn free_cells(blacklist: &[(usize, usize, i32)], width: usize, height: usize) -> (valid: Vec<
    (usize, usize),
>)
    ensures
        forall|i: int|
            0 <= i < valid@.len() ==> is_free(
                blacklist@,
                width as int,
                height as int,
                #[trigger] valid@[i],
            ),
        forall|c: (usize, usize)| #[trigger]
            is_free(blacklist@, width as int, height as int, c) ==> valid@.contains(c),
        forall|i: int, j: int|
            0 <= i < j < valid@.len() ==> row_major_before(#[trigger] valid@[i], #[trigger] valid@[j]),
{
    let mut valid: Vec<(usize, usize)> = Vec::new();
    let mut y: usize = 0;
    while y < height
        invariant
            y <= height,
            forall|i: int|
                0 <= i < valid@.len() ==> is_free(
                    blacklist@,
                    width as int,
                    height as int,
                    #[trigger] valid@[i],
                ) && valid@[i].1 < y,
            forall|c: (usize, usize)| #[trigger]
                is_free(blacklist@, width as int, height as int, c) && c.1 < y
                    ==> valid@.contains(c),
            forall|i: int, j: int|
                0 <= i < j < valid@.len() ==> row_major_before(
                    #[trigger] valid@[i],
                    #[trigger] valid@[j],
                ),
        decreases height - y,
    {
        let mut x: usize = 0;
        while x < width
            invariant
                y < height,
                x <= width,
                forall|i: int|
                    0 <= i < valid@.len() ==> is_free(
                        blacklist@,
                        width as int,
                        height as int,
                        #[trigger] valid@[i],
                    ) && row_major_before(valid@[i], (x, y)),
                forall|c: (usize, usize)| #[trigger]
                    is_free(blacklist@, width as int, height as int, c) && row_major_before(
                        c,
                        (x, y),
                    ) ==> valid@.contains(c),
                forall|i: int, j: int|
                    0 <= i < j < valid@.len() ==> row_major_before(
                        #[trigger] valid@[i],
                        #[trigger] valid@[j],
                    ),
            decreases width - x,
        {
            let taken: bool = is_occupied(blacklist, x, y);
            let ghost before = valid@;
            if !taken {
                valid.push((x, y));
            }
            proof {
                assert forall|c: (usize, usize)| #[trigger]
                    is_free(blacklist@, width as int, height as int, c) && row_major_before(
                        c,
                        ((x + 1) as usize, y),
                    ) implies valid@.contains(c) by {
                    if row_major_before(c, (x, y)) {
                        assert(before.contains(c));
                        let k = choose|k: int| 0 <= k < before.len() && before[k] == c;
                        assert(valid@[k] == c);
                    } else {
                        assert(c == (x, y));
                        assert(valid@[before.len() as int] == c);
                    }
                }
            }
            x += 1;
        }
        proof {
            assert forall|c: (usize, usize)| #[trigger]
                is_free(blacklist@, width as int, height as int, c) && c.1 < y + 1
                implies valid@.contains(c) by {
                assert(row_major_before(c, (x, y)));
            }
        }
        y += 1;
    }
    valid
}

/// What a draw of the cell `(x, y)` is worth: the cell if nothing sits on it.
pub fn accept_draw(blacklist: &[(usize, usize, i32)], x: usize, y: usize) -> (r: Option<
    (usize, usize),
>)
    ensures
        r == (if occupied(blacklist@, x as int, y as int) {
            None
        } else {
            Some((x, y))
        }),
{
    if is_occupied(blacklist, x, y) {
        None
    } else {
        Some((x, y))
    }
}

/// The cell at place `idx` of a list of cells, if the list is that long.
pub fn pick_cell(cells: &Vec<(usize, usize)>, idx: usize) -> (r: Option<(usize, usize)>)
    ensures
        r == (if idx < cells@.len() {
            Some(cells@[idx as int])
        } else {
            None
        }),
{
    if idx < cells.len() {
        Some(cells[idx])
    } else {
        None
    }
}

/// Picks a free cell of the board at random, or `None` where there is none.
///
/// While fewer than half the cells are taken, up to `width * height` cells
/// are drawn at random and the first free one is the answer. Otherwise, and
/// when every draw landed on a taken cell, the free cells are listed and one
/// of them is drawn. So `None` always means that the board is full.
pub fn place_random(blacklist: &[(usize, usize, i32)], width: usize, height: usize) -> (r: Option<
    (usize, usize),
>)
    requires
        width * height <= usize::MAX,
    ensures
        r matches Some(c) ==> is_free(blacklist@, width as int, height as int, c),
        r is None <==> board_full(blacklist@, width as int, height as int),
{
    let total_cells: usize = width * height;
    let taken: usize = count_occupied(blacklist);
    if taken < total_cells / 2 {
        assert(width > 0 && height > 0) by (nonlinear_arith)
            requires
                width * height >= 2,
                width >= 0,
                height >= 0,
        ;
        let mut tries: usize = 0;
        while tries < total_cells
            invariant
                width > 0,
                height > 0,
            decreases total_cells - tries,
        {
            let x: usize = random_below(width);
            let y: usize = random_below(height);
            let hit: Option<(usize, usize)> = accept_draw(blacklist, x, y);
            if hit.is_some() {
                return hit;
            }
            tries += 1;
        }
    }
    let valid: Vec<(usize, usize)> = free_cells(blacklist, width, height);
    if valid.len() > 0 {
        let idx: usize = random_below(valid.len());
        pick_cell(&valid, idx)
    } else {
        proof {
            assert forall|x: int, y: int| 0 <= x < width && 0 <= y < height implies #[trigger]
                occupied(blacklist@, x, y) by {
                let c = (x as usize, y as usize);
                if !occupied(blacklist@, x, y) {
                    assert(is_free(blacklist@, width as int, height as int, c));
                    assert(valid@.contains(c));
                }
            }
        }
        None
    }
}

} // verus!
