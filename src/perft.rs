//! Perft: the number of leaf nodes of the move tree to a given depth.
use vstd::prelude::*;
use crate::game::Game;
use crate::types::{Move, MoveList};
use crate::move_generator::{MoveTypes, generated, generate_moves};
use crate::make_move::{SearchEnv, applied, make_move, unmake_move};

verus! {

/// The leaf count below `g` to depth `depth`: at depth one the number of generated
/// moves, below that the sum over generated moves of the count after each.
pub open spec fn perft_count(g: Game, depth: nat) -> nat
    decreases depth, 0nat,
{
    if depth <= 1 {
        generated(g, MoveTypes::All).len()
    } else {
        branch_sum(g, generated(g, MoveTypes::All), (depth - 1) as nat, generated(g, MoveTypes::All).len())
    }
}

/// The sum of the leaf counts to depth `depth` after each of the first `n` of `moves`.
pub open spec fn branch_sum(g: Game, moves: Seq<Move>, depth: nat, n: nat) -> nat
    decreases depth, n,
{
    if n == 0 || n > moves.len() {
        0
    } else {
        branch_sum(g, moves, depth, (n - 1) as nat) + perft_count(applied(g, moves[n - 1]), depth)
    }
}

proof fn lemma_branch_sum_monotone(g: Game, moves: Seq<Move>, depth: nat, n: nat, m: nat)
    requires
        n <= m <= moves.len(),
    ensures
        branch_sum(g, moves, depth, n) <= branch_sum(g, moves, depth, m),
    decreases m,
{
    if n < m {
        lemma_branch_sum_monotone(g, moves, depth, n, (m - 1) as nat);
    }
}

fn seq_perft(game: &mut Game, depth: u8, envir: &mut SearchEnv) -> (r: u128)
    requires
        depth >= 1,
        perft_count(*old(game), depth as nat) <= u128::MAX,
    ensures
        r == perft_count(*old(game), depth as nat),
        *final(game) == *old(game),
        final(envir).history@ == old(envir).history@,
        final(envir).ply == old(envir).ply,
    decreases depth,
{
    let moves = generate_moves(game, MoveTypes::All);
    if depth == 1 {
        return moves.len() as u128;
    }
    let ghost g0 = *game;
    let ghost h0 = envir.history@;
    let ghost p0 = envir.ply;
    let list = moves.values();
    let mut total: u128 = 0;
    let mut i: usize = 0;
    while i < list.len()
        invariant
            depth >= 2,
            list@ == generated(g0, MoveTypes::All),
            i <= list@.len(),
            *game == g0,
            envir.history@ == h0,
            envir.ply == p0,
            total == branch_sum(g0, list@, (depth - 1) as nat, i as nat),
            perft_count(g0, depth as nat) <= u128::MAX,
        decreases list@.len() - i,
    {
        let m = list[i];
        proof {
            lemma_branch_sum_monotone(g0, list@, (depth - 1) as nat, (i + 1) as nat, list@.len());
        }
        make_move(game, &m, envir);
        let r = seq_perft(game, depth - 1, envir);
        unmake_move(game, &m, envir);
        proof {
            assert(h0.push(g0).drop_last() =~= h0);
        }
        total = total + r;
        i = i + 1;
    }
    total
}

/// The leaf count below `game` to depth `depth` (at least one); the position is left
/// as it was.
pub fn perft(game: &mut Game, depth: u8) -> (r: u128)
    requires
        depth >= 1,
        perft_count(*old(game), depth as nat) <= u128::MAX,
    ensures
        r == perft_count(*old(game), depth as nat),
        *final(game) == *old(game),
{
    let mut envir = SearchEnv::new();
    seq_perft(game, depth, &mut envir)
}

/// The leaf count to depth `depth` (at least two) below the position reached by
/// making `m` in `game`, counted on a copy with an environment of its own.
pub fn perft_branch(game: &Game, m: &Move, depth: u8) -> (r: u128)
    requires
        depth >= 2,
        perft_count(applied(*game, *m), (depth - 1) as nat) <= u128::MAX,
    ensures
        r == perft_count(applied(*game, *m), (depth - 1) as nat),
{
    let mut copy = *game;
    let mut envir = SearchEnv::new();
    make_move(&mut copy, m, &mut envir);
    seq_perft(&mut copy, depth - 1, &mut envir)
}

/// For each generated move of `game`, in order, the leaf count to depth `depth` (at
/// least two) below it.
pub fn perft_divide(game: &Game, depth: u8) -> (r: (MoveList, Vec<u128>))
    requires
        depth >= 2,
        perft_count(*game, depth as nat) <= u128::MAX,
    ensures
        r.0@ == generated(*game, MoveTypes::All),
        r.1@.len() == r.0@.len(),
        forall|i: int|
            0 <= i < r.1@.len() ==> #[trigger] r.1@[i] == perft_count(
                applied(*game, r.0@[i]),
                (depth - 1) as nat,
            ),
{
    let moves = generate_moves(game, MoveTypes::All);
    let mut counts: Vec<u128> = Vec::new();
    let mut i: usize = 0;
    while i < moves.moves.len()
        invariant
            moves@ == generated(*game, MoveTypes::All),
            i <= moves@.len(),
            counts@.len() == i,
            depth >= 2,
            perft_count(*game, depth as nat) <= u128::MAX,
            forall|j: int|
                0 <= j < i ==> #[trigger] counts@[j] == perft_count(
                    applied(*game, moves@[j]),
                    (depth - 1) as nat,
                ),
        decreases moves@.len() - i,
    {
        let m = moves.moves[i];
        proof {
            lemma_branch_sum_monotone(*game, moves@, (depth - 1) as nat, (i + 1) as nat, moves@.len());
            lemma_branch_sum_monotone(*game, moves@, (depth - 1) as nat, i as nat, (i + 1) as nat);
        }
        let r = perft_branch(game, &m, depth);
        counts.push(r);
        i = i + 1;
    }
    (moves, counts)
}

/// At depth one the count is the number of generated moves.
pub proof fn lemma_perft_depth_one(g: Game)
    ensures
        perft_count(g, 1) == generated(g, MoveTypes::All).len(),
{
}

/// The sum of the first `n` of `counts`.
pub open spec fn sum_of(counts: Seq<u128>, n: nat) -> nat
    decreases n,
{
    if n == 0 || n > counts.len() {
        0
    } else {
        (sum_of(counts, (n - 1) as nat) + counts[n - 1]) as nat
    }
}

proof fn lemma_sum_matches(g: Game, depth: nat, counts: Seq<u128>, n: nat)
    requires
        n <= counts.len(),
        counts.len() == generated(g, MoveTypes::All).len(),
        forall|i: int|
            0 <= i < counts.len() ==> #[trigger] counts[i] == perft_count(
                applied(g, generated(g, MoveTypes::All)[i]),
                depth,
            ),
    ensures
        sum_of(counts, n) == branch_sum(g, generated(g, MoveTypes::All), depth, n),
    decreases n,
{
    if n > 0 {
        lemma_sum_matches(g, depth, counts, (n - 1) as nat);
    }
}

/// Splitting at the root agrees with the sequential count: when `counts` holds, for
/// each generated move in order, the count to depth `depth - 1` below it, their sum
/// is the count to depth `depth`.
pub proof fn lemma_root_split(g: Game, depth: nat, counts: Seq<u128>)
    requires
        depth >= 2,
        counts.len() == generated(g, MoveTypes::All).len(),
        forall|i: int|
            0 <= i < counts.len() ==> #[trigger] counts[i] == perft_count(
                applied(g, generated(g, MoveTypes::All)[i]),
                (depth - 1) as nat,
            ),
    ensures
        sum_of(counts, counts.len()) == perft_count(g, depth),
{
    lemma_sum_matches(g, (depth - 1) as nat, counts, counts.len());
}

} // verus!
