//! The shared game board owned by the arbiter: the tile bag, the row of
//! factory displays and the shared pool, with dealing, draw validation and
//! end-of-round detection. Every operation accounts exactly for each
//! color's tiles, so conservation of the 100 tiles is stated and proved.

use vstd::prelude::*;

use rand::seq::SliceRandom;

use crate::color::{color_index, color_of, is_drawable, TileColor};
use crate::messages::{AzoolRequest, AzoolResponse, BoardView, InvalidMoveError};

verus! {

/// The sum of a sequence of counts.
pub open spec fn seq_sum(s: Seq<usize>) -> int
    decreases s.len(),
{
    if s.len() == 0 {
        0
    } else {
        seq_sum(s.drop_last()) + s.last()
    }
}

/// The total number of tiles across a row of displays.
pub open spec fn facts_total(fs: Seq<Vec<usize>>) -> int
    decreases fs.len(),
{
    if fs.len() == 0 {
        0
    } else {
        facts_total(fs.drop_last()) + seq_sum(fs.last()@)
    }
}

/// How many tiles of color `c` a bag holds.
pub open spec fn bag_count(bag: Seq<TileColor>, c: TileColor) -> int
    decreases bag.len(),
{
    if bag.len() == 0 {
        0
    } else {
        bag_count(bag.drop_last(), c) + if bag.last() == c {
            1int
        } else {
            0int
        }
    }
}

/// How many tiles with color encoding `ci` a row of displays holds.
pub open spec fn facts_count(fs: Seq<Vec<usize>>, ci: int) -> int
    decreases fs.len(),
{
    if fs.len() == 0 {
        0
    } else {
        facts_count(fs.drop_last(), ci) + fs.last()@[ci]
    }
}

pub proof fn lemma_seq_sum_nonneg(s: Seq<usize>)
    ensures
        seq_sum(s) >= 0,
    decreases s.len(),
{
    if s.len() > 0 {
        lemma_seq_sum_nonneg(s.drop_last());
    }
}

/// Appending one count adds it to the sum.
pub proof fn lemma_facts_total_nonneg(fs: Seq<Vec<usize>>)
    ensures
        facts_total(fs) >= 0,
    decreases fs.len(),
{
    if fs.len() > 0 {
        lemma_facts_total_nonneg(fs.drop_last());
        lemma_seq_sum_nonneg(fs.last()@);
    }
}

/// Appending one count adds it to the sum.
pub proof fn lemma_seq_sum_push(s: Seq<usize>, v: usize)
    ensures
        seq_sum(s.push(v)) == seq_sum(s) + v,
{
    assert(s.push(v).drop_last() =~= s);
}

/// Replacing one count changes the sum by the difference.
pub proof fn lemma_seq_sum_update(s: Seq<usize>, i: int, v: usize)
    requires
        0 <= i < s.len(),
    ensures
        seq_sum(s.update(i, v)) == seq_sum(s) - s[i] + v,
    decreases s.len(),
{
    let s2 = s.update(i, v);
    if i == s.len() - 1 {
        assert(s2.drop_last() =~= s.drop_last());
    } else {
        assert(s2.drop_last() =~= s.drop_last().update(i, v));
        lemma_seq_sum_update(s.drop_last(), i, v);
    }
}

/// Every count is bounded by the sum of its sequence.
pub proof fn lemma_seq_sum_elem_le(s: Seq<usize>, i: int)
    requires
        0 <= i < s.len(),
    ensures
        s[i] <= seq_sum(s),
    decreases s.len(),
{
    lemma_seq_sum_nonneg(s.drop_last());
    if i < s.len() - 1 {
        lemma_seq_sum_elem_le(s.drop_last(), i);
    }
}

/// A prefix of a sequence of counts sums to no more than the whole.
pub proof fn lemma_seq_sum_prefix_le(s: Seq<usize>, i: int)
    requires
        0 <= i <= s.len(),
    ensures
        seq_sum(s.subrange(0, i)) <= seq_sum(s),
    decreases s.len() - i,
{
    if i == s.len() {
        assert(s.subrange(0, i) =~= s);
    } else {
        assert(s.subrange(0, i + 1).drop_last() =~= s.subrange(0, i));
        assert(seq_sum(s.subrange(0, i + 1)) == seq_sum(s.subrange(0, i)) + s[i]);
        lemma_seq_sum_prefix_le(s, i + 1);
    }
}

/// The sum of five counts, written out.
pub proof fn lemma_seq_sum5(s: Seq<usize>)
    requires
        s.len() == 5,
    ensures
        seq_sum(s) == s[0] + s[1] + s[2] + s[3] + s[4],
{
    let s4 = s.drop_last();
    let s3 = s4.drop_last();
    let s2 = s3.drop_last();
    let s1 = s2.drop_last();
    let s0 = s1.drop_last();
    assert(s0 =~= Seq::<usize>::empty());
    assert(seq_sum(s0) == 0);
    assert(seq_sum(s1) == s[0]);
    assert(seq_sum(s2) == s[0] + s[1]);
    assert(seq_sum(s3) == s[0] + s[1] + s[2]);
    assert(seq_sum(s4) == s[0] + s[1] + s[2] + s[3]);
}

/// Appending one display adds its tiles to the row's total.
pub proof fn lemma_facts_total_push(fs: Seq<Vec<usize>>, f: Vec<usize>)
    ensures
        facts_total(fs.push(f)) == facts_total(fs) + seq_sum(f@),
{
    assert(fs.push(f).drop_last() =~= fs);
}

/// Removing one display takes its tiles out of the row's total.
pub proof fn lemma_facts_total_remove(fs: Seq<Vec<usize>>, i: int)
    requires
        0 <= i < fs.len(),
    ensures
        facts_total(fs.remove(i)) == facts_total(fs) - seq_sum(fs[i]@),
    decreases fs.len(),
{
    if i == fs.len() - 1 {
        assert(fs.remove(i) =~= fs.drop_last());
    } else {
        assert(fs.remove(i).drop_last() =~= fs.drop_last().remove(i));
        assert(fs.remove(i).last() == fs.last());
        lemma_facts_total_remove(fs.drop_last(), i);
    }
}

/// Appending one display adds its count of a color to the row's count.
pub proof fn lemma_facts_count_push(fs: Seq<Vec<usize>>, f: Vec<usize>, ci: int)
    ensures
        facts_count(fs.push(f), ci) == facts_count(fs, ci) + f@[ci],
{
    assert(fs.push(f).drop_last() =~= fs);
}

/// Removing one display takes its count of a color out of the row's count.
pub proof fn lemma_facts_count_remove(fs: Seq<Vec<usize>>, i: int, ci: int)
    requires
        0 <= i < fs.len(),
    ensures
        facts_count(fs.remove(i), ci) == facts_count(fs, ci) - fs[i]@[ci],
    decreases fs.len(),
{
    if i == fs.len() - 1 {
        assert(fs.remove(i) =~= fs.drop_last());
    } else {
        assert(fs.remove(i).drop_last() =~= fs.drop_last().remove(i));
        assert(fs.remove(i).last() == fs.last());
        lemma_facts_count_remove(fs.drop_last(), i, ci);
    }
}

/// Appending one tile raises its color's bag count by one.
pub proof fn lemma_bag_count_push(bag: Seq<TileColor>, t: TileColor, c: TileColor)
    ensures
        bag_count(bag.push(t), c) == bag_count(bag, c) + if t == c {
            1int
        } else {
            0int
        },
{
    assert(bag.push(t).drop_last() =~= bag);
}

pub proof fn lemma_bag_count_nonneg(bag: Seq<TileColor>, c: TileColor)
    ensures
        bag_count(bag, c) >= 0,
    decreases bag.len(),
{
    if bag.len() > 0 {
        lemma_bag_count_nonneg(bag.drop_last(), c);
    }
}

/// A bag that holds none of a color has no element of it.
pub proof fn lemma_bag_count_zero(bag: Seq<TileColor>, c: TileColor)
    requires
        bag_count(bag, c) == 0,
    ensures
        forall|j: int| 0 <= j < bag.len() ==> bag[j] != c,
    decreases bag.len(),
{
    if bag.len() > 0 {
        lemma_bag_count_nonneg(bag.drop_last(), c);
        lemma_bag_count_zero(bag.drop_last(), c);
        assert forall|j: int| 0 <= j < bag.len() implies bag[j] != c by {
            if j < bag.len() - 1 {
                assert(bag.drop_last()[j] == bag[j]);
            }
        }
    }
}

/// A bag of only drawable tiles holds none of the sentinel.
pub proof fn lemma_drawable_bag_no_sentinel(bag: Seq<TileColor>)
    requires
        forall|j: int| 0 <= j < bag.len() ==> is_drawable(#[trigger] bag[j]),
    ensures
        bag_count(bag, TileColor::NOCOLOR) == 0,
    decreases bag.len(),
{
    if bag.len() > 0 {
        assert forall|j: int| 0 <= j < bag.drop_last().len() implies is_drawable(
            #[trigger] bag.drop_last()[j],
        ) by {
            assert(bag.drop_last()[j] == bag[j]);
        }
        lemma_drawable_bag_no_sentinel(bag.drop_last());
    }
}

/// Relies on rand's `SliceRandom::shuffle`: an in-place permutation of the
/// slice by element swaps, so the bag keeps its length and its count of
/// every color.
#[verifier::external_body]
fn shuffle_bag(bag: &mut Vec<TileColor>)
    ensures
        final(bag)@.len() == old(bag)@.len(),
        forall|c: TileColor| #[trigger] bag_count(final(bag)@, c) == bag_count(old(bag)@, c),
{
    let mut rng = rand::thread_rng();
    bag.shuffle(&mut rng);
}

/// A display holding five per-color counts.
pub open spec fn factory_ok(f: Vec<usize>) -> bool {
    f@.len() == 5 && seq_sum(f@) == 4
}

/// The shared board: the bag, the factory displays, the shared pool, the
/// first-player marker, and the final-round flag. The pool and each display
/// map color encodings `0..4` to counts.
#[derive(Debug)]
pub struct GameBoard {
    pub my_num_players: usize,
    pub max_num_factories: usize,
    pub tile_pool: Vec<usize>,
    pub tile_bag: Vec<TileColor>,
    pub tile_factories: Vec<Vec<usize>>,
    pub white_tile_in_pool: bool,
    pub last_round: bool,
}

impl GameBoard {
    /// All tiles the board currently holds: bag, pool and displays.
    pub open spec fn total(self) -> int {
        self.tile_bag@.len() + seq_sum(self.tile_pool@) + facts_total(self.tile_factories@)
    }

    /// All tiles of one color the board currently holds.
    pub open spec fn color_total(self, c: TileColor) -> int {
        bag_count(self.tile_bag@, c) + self.tile_pool@[color_index(c)] + facts_count(
            self.tile_factories@,
            color_index(c),
        )
    }

    /// Well-formedness: a five-entry pool, displays of five entries summing
    /// to four tiles, only drawable colors in the bag, and never more than
    /// the game's 100 tiles in play.
    pub open spec fn wf(self) -> bool {
        &&& self.tile_pool@.len() == 5
        &&& forall|i: int|
            0 <= i < self.tile_factories@.len() ==> factory_ok(#[trigger] self.tile_factories@[i])
        &&& forall|i: int| 0 <= i < self.tile_bag@.len() ==> is_drawable(#[trigger] self.tile_bag@[i])
        &&& self.total() <= 100
        &&& self.my_num_players >= 1
        &&& self.max_num_factories == 2 * self.my_num_players + 1
    }

    /// A draw from a display is valid iff the index is in range and that
    /// display holds at least one tile of the color.
    pub open spec fn spec_valid_factory_request(self, factory_idx: int, c: TileColor) -> bool {
        &&& 0 <= factory_idx < self.tile_factories@.len()
        &&& is_drawable(c)
        &&& self.tile_factories@[factory_idx]@[color_index(c)] > 0
    }

    /// The round is over iff the pool holds zero of every real color and no
    /// displays remain; the first-player marker does not matter.
    pub open spec fn spec_round_over(self) -> bool {
        (forall|ci: int| 0 <= ci < 5 ==> self.tile_pool@[ci] == 0)
            && self.tile_factories@.len() == 0
    }

    /// The player-count, marker and final-round bookkeeping is untouched.
    pub open spec fn meta_unchanged(pre: GameBoard, post: GameBoard) -> bool {
        &&& post.my_num_players == pre.my_num_players
        &&& post.max_num_factories == pre.max_num_factories
        &&& post.last_round == pre.last_round
    }

    /// The state change of a valid draw of `c` from display `factory_idx`:
    /// the display is removed whole, the other colors' tiles from it join
    /// the pool, the bag is untouched, and the board gives up exactly the
    /// requested color's tiles from that display.
    pub open spec fn factory_draw_applied(
        pre: GameBoard,
        post: GameBoard,
        factory_idx: int,
        c: TileColor,
    ) -> bool {
        let ci = color_index(c);
        let fact = pre.tile_factories@[factory_idx];
        &&& post.tile_factories@ == pre.tile_factories@.remove(factory_idx)
        &&& post.tile_pool@.len() == 5
        &&& post.tile_pool@[ci] == pre.tile_pool@[ci]
        &&& forall|c2: int|
            0 <= c2 < 5 && c2 != ci ==> post.tile_pool@[c2] == pre.tile_pool@[c2] + fact@[c2]
        &&& post.tile_bag == pre.tile_bag
        &&& Self::meta_unchanged(pre, post)
        &&& post.total() == pre.total() - fact@[ci]
        &&& post.color_total(c) == pre.color_total(c) - fact@[ci]
        &&& forall|c2: TileColor|
            is_drawable(c2) && c2 != c ==> #[trigger] post.color_total(c2) == pre.color_total(
                c2,
            )
    }

    /// The state change of a valid draw of `c` from the pool: that color's
    /// pool count is zeroed and nothing else moves.
    pub open spec fn pool_draw_applied(pre: GameBoard, post: GameBoard, c: TileColor) -> bool {
        let ci = color_index(c);
        &&& post.tile_pool@ == pre.tile_pool@.update(ci, 0usize)
        &&& post.tile_bag == pre.tile_bag
        &&& post.tile_factories == pre.tile_factories
        &&& Self::meta_unchanged(pre, post)
        &&& post.total() == pre.total() - pre.tile_pool@[ci]
        &&& post.color_total(c) == pre.color_total(c) - pre.tile_pool@[ci]
        &&& forall|c2: TileColor|
            is_drawable(c2) && c2 != c ==> #[trigger] post.color_total(c2) == pre.color_total(
                c2,
            )
    }

    /// The state change of returning `n` tiles of `c` to the bag: the bag
    /// grows by `n` copies of `c` at its end and nothing else moves.
    pub open spec fn bag_return_applied(pre: GameBoard, post: GameBoard, c: TileColor, n: int) -> bool {
        &&& post.tile_bag@.len() == pre.tile_bag@.len() + n
        &&& forall|i: int| 0 <= i < pre.tile_bag@.len() ==> post.tile_bag@[i] == pre.tile_bag@[i]
        &&& forall|i: int|
            pre.tile_bag@.len() <= i < post.tile_bag@.len() ==> post.tile_bag@[i] == c
        &&& post.tile_pool == pre.tile_pool
        &&& post.tile_factories == pre.tile_factories
        &&& post.white_tile_in_pool == pre.white_tile_in_pool
        &&& Self::meta_unchanged(pre, post)
        &&& post.total() == pre.total() + n
        &&& post.color_total(c) == pre.color_total(c) + n
        &&& forall|c2: TileColor|
            is_drawable(c2) && c2 != c ==> #[trigger] post.color_total(c2) == pre.color_total(
                c2,
            )
    }

    /// Whether a draw of `tile_color` from display `factory_idx` is valid:
    /// the index in range and the display holding at least one such tile.
    pub fn valid_factory_request(&self, factory_idx: usize, tile_color: &TileColor) -> (r: bool)
        requires
            self.wf(),
        ensures
            r == self.spec_valid_factory_request(factory_idx as int, *tile_color),
    {
        if factory_idx >= self.tile_factories.len() {
            return false;
        }
        let ci = tile_color.to_integer();
        if ci < 0 || ci >= 5 {
            return false;
        }
        self.tile_factories[factory_idx][ci as usize] > 0
    }

    /// A valid factory draw hands every tile of the requested color to the
    /// caller, removes the display, and moves each other color's tiles from
    /// it into the pool: tiles are conserved, the board giving up exactly
    /// the tiles returned.
    pub fn take_tiles_from_factory(&mut self, factory_idx: usize, tile_color: &TileColor) -> (r:
        Result<usize, InvalidMoveError>)
        requires
            old(self).wf(),
        ensures
            final(self).wf(),
            !old(self).spec_valid_factory_request(factory_idx as int, *tile_color) ==> r == Err::<
                usize,
                InvalidMoveError,
            >(InvalidMoveError::BadFactoryRequestError) && *final(self) == *old(self),
            old(self).spec_valid_factory_request(factory_idx as int, *tile_color) ==> ({
                let ci = color_index(*tile_color);
                let fact = old(self).tile_factories@[factory_idx as int];
                &&& r == Ok::<usize, InvalidMoveError>(fact@[ci] as usize)
                &&& Self::factory_draw_applied(
                    *old(self),
                    *final(self),
                    factory_idx as int,
                    *tile_color,
                )
                &&& final(self).white_tile_in_pool == old(self).white_tile_in_pool
            }),
    {
        if !self.valid_factory_request(factory_idx, tile_color) {
            return Err(InvalidMoveError::BadFactoryRequestError);
        }
        let ghost pre = *self;
        let ci_i32 = tile_color.to_integer();
        let ci = ci_i32 as usize;
        let this_factory = self.tile_factories.remove(factory_idx);
        let num_tiles = this_factory[ci];
        proof {
            lemma_facts_total_remove(pre.tile_factories@, factory_idx as int);
            lemma_seq_sum_nonneg(pre.tile_pool@);
            lemma_facts_total_nonneg(pre.tile_factories@);
        }
        // move the other colors' tiles from the display into the pool
        let mut c2: usize = 0;
        while c2 < 5
            invariant
                c2 <= 5,
                ci < 5,
                pre.wf(),
                pre.tile_pool@.len() == 5,
                self.tile_pool@.len() == 5,
                this_factory@.len() == 5,
                seq_sum(this_factory@) == 4,
                seq_sum(pre.tile_pool@) <= 100,
                forall|j: int|
                    0 <= j < 5 && (j >= c2 || j == ci) ==> self.tile_pool@[j]
                        == pre.tile_pool@[j],
                forall|j: int|
                    0 <= j < c2 && j != ci ==> self.tile_pool@[j] == pre.tile_pool@[j]
                        + this_factory@[j],
                self.tile_bag == pre.tile_bag,
                self.tile_factories@ == pre.tile_factories@.remove(factory_idx as int),
                self.white_tile_in_pool == pre.white_tile_in_pool,
                self.last_round == pre.last_round,
                self.my_num_players == pre.my_num_players,
                self.max_num_factories == pre.max_num_factories,
            decreases 5 - c2,
        {
            if c2 != ci {
                let tile_count = this_factory[c2];
                proof {
                    lemma_seq_sum_elem_le(pre.tile_pool@, c2 as int);
                    lemma_seq_sum_elem_le(this_factory@, c2 as int);
                    lemma_seq_sum_update(
                        self.tile_pool@,
                        c2 as int,
                        (self.tile_pool@[c2 as int] + tile_count) as usize,
                    );
                }
                let old_count = self.tile_pool[c2];
                self.tile_pool[c2] = old_count + tile_count;
            }
            c2 = c2 + 1;
        }
        proof {
            lemma_seq_sum5(pre.tile_pool@);
            lemma_seq_sum5(self.tile_pool@);
            lemma_seq_sum5(this_factory@);
            assert forall|c2: TileColor|
                is_drawable(c2) && c2 != *tile_color implies self.color_total(c2)
                == pre.color_total(c2) by {
                lemma_facts_count_remove(
                    pre.tile_factories@,
                    factory_idx as int,
                    color_index(c2),
                );
            }
            lemma_facts_count_remove(pre.tile_factories@, factory_idx as int, ci as int);
        }
        Ok(num_tiles)
    }

    /// A valid pool draw hands the caller every tile of the requested color
    /// in the pool and zeroes that count; nothing else changes.
    pub fn take_tiles_from_pool(&mut self, tile_color: &TileColor) -> (r: Result<
        usize,
        InvalidMoveError,
    >)
        requires
            old(self).wf(),
        ensures
            final(self).wf(),
            ({
                let valid = is_drawable(*tile_color) && old(self).tile_pool@[color_index(
                    *tile_color,
                )] > 0;
                &&& !valid ==> r == Err::<usize, InvalidMoveError>(
                    InvalidMoveError::BadPoolRequestError,
                ) && *final(self) == *old(self)
                &&& valid ==> ({
                    let ci = color_index(*tile_color);
                    let n = old(self).tile_pool@[ci];
                    &&& r == Ok::<usize, InvalidMoveError>(n as usize)
                    &&& Self::pool_draw_applied(*old(self), *final(self), *tile_color)
                    &&& final(self).white_tile_in_pool == old(self).white_tile_in_pool
                })
            }),
    {
        let ci_i32 = tile_color.to_integer();
        if ci_i32 < 0 || ci_i32 >= 5 {
            return Err(InvalidMoveError::BadPoolRequestError);
        }
        let ci = ci_i32 as usize;
        let num_tiles = self.tile_pool[ci];
        if num_tiles == 0 {
            return Err(InvalidMoveError::BadPoolRequestError);
        }
        proof {
            lemma_seq_sum_update(self.tile_pool@, ci as int, 0usize);
            lemma_seq_sum_nonneg(self.tile_pool@);
        }
        self.tile_pool[ci] = 0;
        Ok(num_tiles)
    }

    /// Appends `num_tiles` copies of `color` back to the bag, used when a
    /// player discards drawn tiles; the discarded tiles re-enter the bag
    /// and nothing else changes.
    pub fn return_tiles_to_bag(&mut self, num_tiles: usize, color: &TileColor)
        requires
            old(self).wf(),
            is_drawable(*color),
            old(self).total() + num_tiles <= 100,
        ensures
            final(self).wf(),
            Self::bag_return_applied(*old(self), *final(self), *color, num_tiles as int),
    {
        let ghost pre = *self;
        let mut k: usize = 0;
        while k < num_tiles
            invariant
                k <= num_tiles,
                pre.wf(),
                is_drawable(*color),
                pre == *old(self),
                pre.total() + num_tiles <= 100,
                self.tile_bag@.len() == pre.tile_bag@.len() + k,
                forall|i: int|
                    0 <= i < pre.tile_bag@.len() ==> self.tile_bag@[i] == pre.tile_bag@[i],
                forall|i: int|
                    pre.tile_bag@.len() <= i < self.tile_bag@.len() ==> self.tile_bag@[i]
                        == *color,
                forall|c2: TileColor|
                    bag_count(self.tile_bag@, c2) == bag_count(pre.tile_bag@, c2) + if c2
                        == *color {
                        k as int
                    } else {
                        0int
                    },
                self.tile_pool == pre.tile_pool,
                self.tile_factories == pre.tile_factories,
                self.white_tile_in_pool == pre.white_tile_in_pool,
                self.last_round == pre.last_round,
                self.my_num_players == pre.my_num_players,
                self.max_num_factories == pre.max_num_factories,
            decreases num_tiles - k,
        {
            proof {
                assert forall|c2: TileColor|
                    bag_count(self.tile_bag@.push(*color), c2) == bag_count(pre.tile_bag@, c2)
                        + if c2 == *color {
                        k + 1int
                    } else {
                        0int
                    } by {
                    lemma_bag_count_push(self.tile_bag@, *color, c2);
                }
            }
            self.tile_bag.push(*color);
            k = k + 1;
        }
        proof {
            assert forall|i: int|
                0 <= i < self.tile_bag@.len() implies is_drawable(
                #[trigger] self.tile_bag@[i],
            ) by {
                if i < pre.tile_bag@.len() {
                    assert(self.tile_bag@[i] == pre.tile_bag@[i]);
                    assert(is_drawable(pre.tile_bag@[i]));
                } else {
                    assert(self.tile_bag@[i] == *color);
                }
            }
        }
    }

    /// Rebuilds the board for a fresh deal: clears the displays, zeroes the
    /// pool, refills the bag with its fixed composition of 20 tiles of each
    /// of the five colors, and restores the first-player marker.
    pub fn reset_board(&mut self)
        requires
            old(self).my_num_players >= 1,
            old(self).max_num_factories == 2 * old(self).my_num_players + 1,
        ensures
            final(self).wf(),
            final(self).tile_pool@.len() == 5,
            forall|ci: int| 0 <= ci < 5 ==> final(self).tile_pool@[ci] == 0,
            final(self).tile_factories@.len() == 0,
            final(self).tile_bag@.len() == 100,
            forall|c: TileColor|
                is_drawable(c) ==> #[trigger] bag_count(final(self).tile_bag@, c) == 20,
            forall|c: TileColor|
                is_drawable(c) ==> #[trigger] final(self).color_total(c) == 20,
            final(self).white_tile_in_pool,
            final(self).total() == 100,
            final(self).my_num_players == old(self).my_num_players,
            final(self).max_num_factories == old(self).max_num_factories,
            final(self).last_round == old(self).last_round,
    {
        self.tile_factories = Vec::new();
        let mut pool: Vec<usize> = Vec::new();
        let mut i: usize = 0;
        while i < 5
            invariant
                i <= 5,
                pool@.len() == i,
                seq_sum(pool@) == 0,
                forall|j: int| 0 <= j < i ==> pool@[j] == 0,
            decreases 5 - i,
        {
            proof {
                lemma_seq_sum_push(pool@, 0usize);
            }
            pool.push(0);
            i = i + 1;
        }
        self.tile_pool = pool;
        let mut bag: Vec<TileColor> = Vec::new();
        let mut ci: usize = 0;
        while ci < 5
            invariant
                ci <= 5,
                bag@.len() == 20 * ci,
                forall|j: int| 0 <= j < bag@.len() ==> is_drawable(#[trigger] bag@[j]),
                forall|c: TileColor|
                    is_drawable(c) ==> #[trigger] bag_count(bag@, c) == if color_index(c) < ci {
                        20int
                    } else {
                        0int
                    },
            decreases 5 - ci,
        {
            let color = TileColor::from_integer(ci as i32);
            let mut k: usize = 0;
            while k < 20
                invariant
                    k <= 20,
                    ci < 5,
                    is_drawable(color),
                    color_index(color) == ci,
                    bag@.len() == 20 * ci + k,
                    forall|j: int| 0 <= j < bag@.len() ==> is_drawable(#[trigger] bag@[j]),
                    forall|c: TileColor|
                        is_drawable(c) ==> #[trigger] bag_count(bag@, c) == if color_index(c)
                            < ci {
                            20int
                        } else if c == color {
                            k as int
                        } else {
                            0int
                        },
                decreases 20 - k,
            {
                proof {
                    assert forall|c: TileColor|
                        is_drawable(c) implies #[trigger] bag_count(bag@.push(color), c)
                        == bag_count(bag@, c) + if c == color {
                        1int
                    } else {
                        0int
                    } by {
                        lemma_bag_count_push(bag@, color, c);
                    }
                }
                bag.push(color);
                k = k + 1;
            }
            ci = ci + 1;
        }
        self.tile_bag = bag;
        self.white_tile_in_pool = true;
    }

    /// Deals a new round: shuffles the bag and fills
    /// `min(bag_len / 4, max_num_factories)` fresh displays with four tiles
    /// each, popped from the bag and grouped by color. The pool, the marker
    /// and every tile count per color are unchanged by dealing.
    pub fn deal_tiles(&mut self)
        requires
            old(self).wf(),
        ensures
            final(self).wf(),
            ({
                let len4 = old(self).tile_bag@.len() as int / 4;
                let k = if len4 <= old(self).max_num_factories {
                    len4
                } else {
                    old(self).max_num_factories as int
                };
                &&& final(self).tile_factories@.len() == old(self).tile_factories@.len() + k
                &&& final(self).tile_bag@.len() == old(self).tile_bag@.len() - 4 * k
            }),
            forall|i: int|
                0 <= i < old(self).tile_factories@.len() ==> final(self).tile_factories@[i]
                    == old(self).tile_factories@[i],
            forall|i: int|
                old(self).tile_factories@.len() <= i < final(self).tile_factories@.len()
                    ==> factory_ok(#[trigger] final(self).tile_factories@[i]),
            final(self).tile_pool == old(self).tile_pool,
            final(self).white_tile_in_pool == old(self).white_tile_in_pool,
            Self::meta_unchanged(*old(self), *final(self)),
            final(self).total() == old(self).total(),
            forall|c: TileColor|
                is_drawable(c) ==> #[trigger] final(self).color_total(c) == old(
                    self,
                ).color_total(c),
    {
        let ghost pre = *self;
        let num_tiles = self.tile_bag.len();
        let mut num_factories = num_tiles / 4;
        if self.max_num_factories < num_factories {
            num_factories = self.max_num_factories;
        }
        if num_tiles < 4 * num_factories {
            num_factories = num_factories + 1;
        }
        assert(num_tiles >= 4 * num_factories);
        proof {
            lemma_drawable_bag_no_sentinel(pre.tile_bag@);
        }
        shuffle_bag(&mut self.tile_bag);
        proof {
            lemma_bag_count_zero(self.tile_bag@, TileColor::NOCOLOR);
        }
        let ghost bag_sh = self.tile_bag@;
        let ghost facts0 = pre.tile_factories@;
        let mut f: usize = 0;
        while f < num_factories
            invariant
                f <= num_factories,
                pre.wf(),
                self.tile_pool == pre.tile_pool,
                self.white_tile_in_pool == pre.white_tile_in_pool,
                self.last_round == pre.last_round,
                self.my_num_players == pre.my_num_players,
                self.max_num_factories == pre.max_num_factories,
                bag_sh.len() == pre.tile_bag@.len(),
                4 * num_factories <= bag_sh.len(),
                self.tile_bag@.len() == bag_sh.len() - 4 * f,
                forall|j: int|
                    0 <= j < self.tile_bag@.len() ==> is_drawable(#[trigger] self.tile_bag@[j]),
                self.tile_factories@.len() == facts0.len() + f,
                forall|i: int| 0 <= i < facts0.len() ==> self.tile_factories@[i] == facts0[i],
                forall|i: int|
                    facts0.len() <= i < self.tile_factories@.len() ==> factory_ok(
                        #[trigger] self.tile_factories@[i],
                    ),
                facts_total(self.tile_factories@) == facts_total(facts0) + 4 * f,
                forall|c: TileColor|
                    is_drawable(c) ==> #[trigger] bag_count(self.tile_bag@, c) + facts_count(
                        self.tile_factories@,
                        color_index(c),
                    ) == bag_count(bag_sh, c) + facts_count(facts0, color_index(c)),
            decreases num_factories - f,
        {
            let mut fact: Vec<usize> = Vec::new();
            let mut z: usize = 0;
            while z < 5
                invariant
                    z <= 5,
                    fact@.len() == z,
                    seq_sum(fact@) == 0,
                    forall|j: int| 0 <= j < z ==> fact@[j] == 0,
                decreases 5 - z,
            {
                proof {
                    lemma_seq_sum_push(fact@, 0usize);
                }
                fact.push(0);
                z = z + 1;
            }
            let ghost mid = *self;
            let ghost bag_f = self.tile_bag@;
            let mut t: usize = 0;
            while t < 4
                invariant
                    t <= 4,
                    fact@.len() == 5,
                    seq_sum(fact@) == t,
                    bag_f.len() >= 4,
                    *self == (GameBoard { tile_bag: self.tile_bag, ..mid }),
                    self.tile_bag@.len() == bag_f.len() - t,
                    forall|j: int|
                        0 <= j < self.tile_bag@.len() ==> self.tile_bag@[j] == bag_f[j],
                    forall|j: int|
                        0 <= j < bag_f.len() ==> is_drawable(#[trigger] bag_f[j]),
                    forall|c: TileColor|
                        is_drawable(c) ==> #[trigger] bag_count(self.tile_bag@, c)
                            + fact@[color_index(c)] == bag_count(bag_f, c),
                decreases 4 - t,
            {
                let ghost bag_before = self.tile_bag@;
                let ghost fact_before = fact@;
                let tile_opt = self.tile_bag.pop();
                let tile = tile_opt.unwrap();
                proof {
                    assert(self.tile_bag@ =~= bag_before.drop_last());
                    assert(tile == bag_before.last());
                    assert(bag_before[bag_before.len() - 1] == bag_f[bag_before.len() - 1]);
                    assert(is_drawable(tile));
                }
                let ti_i32 = tile.to_integer();
                let ti = ti_i32 as usize;
                let cur = fact[ti];
                proof {
                    lemma_seq_sum_elem_le(fact@, ti as int);
                    lemma_seq_sum_update(fact@, ti as int, (cur + 1) as usize);
                }
                fact[ti] = cur + 1;
                t = t + 1;
                proof {
                    assert forall|c: TileColor|
                        is_drawable(c) implies #[trigger] bag_count(self.tile_bag@, c)
                        + fact@[color_index(c)] == bag_count(bag_f, c) by {
                        assert(bag_count(bag_before, c) == bag_count(bag_before.drop_last(), c)
                            + if bag_before.last() == c {
                            1int
                        } else {
                            0int
                        });
                        assert(bag_count(self.tile_bag@, c) == bag_count(
                            bag_before.drop_last(),
                            c,
                        ));
                        if c == tile {
                            assert(fact@[color_index(c)] == fact_before[color_index(c)] + 1);
                        } else {
                            assert(color_index(c) != ti as int);
                            assert(fact@[color_index(c)] == fact_before[color_index(c)]);
                        }
                    }
                }
            }
            proof {
                assert forall|j: int|
                    0 <= j < self.tile_bag@.len() implies is_drawable(
                    #[trigger] self.tile_bag@[j],
                ) by {
                    assert(self.tile_bag@[j] == bag_f[j]);
                }
                lemma_facts_total_push(self.tile_factories@, fact);
                assert forall|c: TileColor|
                    is_drawable(c) implies #[trigger] facts_count(
                    self.tile_factories@.push(fact),
                    color_index(c),
                ) == facts_count(self.tile_factories@, color_index(c)) + fact@[color_index(
                    c,
                )] by {
                    lemma_facts_count_push(self.tile_factories@, fact, color_index(c));
                }
            }
            self.tile_factories.push(fact);
            f = f + 1;
        }
        proof {
            assert forall|i: int|
                0 <= i < self.tile_factories@.len() implies factory_ok(
                #[trigger] self.tile_factories@[i],
            ) by {
                if i < facts0.len() {
                    assert(self.tile_factories@[i] == pre.tile_factories@[i]);
                    assert(factory_ok(pre.tile_factories@[i]));
                }
            }
            assert(self.total() == pre.total());
        }
    }

    /// A fresh two-player board: the bag's fixed 100-tile composition dealt
    /// into the round's five displays of four tiles each, the pool empty
    /// and the first-player marker present. All 100 tiles are on the board,
    /// 20 of each color.
    pub fn new() -> (gb: GameBoard)
        ensures
            gb.wf(),
            gb.my_num_players == 2,
            gb.max_num_factories == 5,
            gb.tile_factories@.len() == 5,
            forall|i: int| 0 <= i < 5 ==> factory_ok(#[trigger] gb.tile_factories@[i]),
            gb.tile_bag@.len() == 80,
            gb.tile_pool@.len() == 5,
            forall|ci: int| 0 <= ci < 5 ==> gb.tile_pool@[ci] == 0,
            gb.white_tile_in_pool,
            !gb.last_round,
            gb.total() == 100,
            forall|c: TileColor| is_drawable(c) ==> #[trigger] gb.color_total(c) == 20,
    {
        let num_players: usize = 2;
        let mut gb = GameBoard {
            my_num_players: num_players,
            max_num_factories: num_players * 2 + 1,
            tile_pool: Vec::new(),
            tile_bag: Vec::new(),
            tile_factories: Vec::new(),
            white_tile_in_pool: true,
            last_round: false,
        };
        gb.reset_board();
        gb.deal_tiles();
        gb
    }

    /// Whether the round is over: the pool empty of every real color and no
    /// displays left. The first-player marker does not affect this.
    pub fn end_of_round(&self) -> (r: bool)
        requires
            self.wf(),
        ensures
            r == self.spec_round_over(),
    {
        let mut ci: usize = 0;
        while ci < 5
            invariant
                self.wf(),
                ci <= 5,
                forall|j: int| 0 <= j < ci ==> self.tile_pool@[j] == 0,
            decreases 5 - ci,
        {
            if self.tile_pool[ci] > 0 {
                return false;
            }
            ci = ci + 1;
        }
        self.tile_factories.is_empty()
    }

    /// Builds the board snapshot that answers a `GetBoard` request: the
    /// remaining displays, the pool with its tile total, the round-over
    /// flag and the first-player marker.
    pub fn serialize_game_board(&self) -> (view: BoardView)
        requires
            self.wf(),
        ensures
            view.factories@.len() == self.tile_factories@.len(),
            forall|i: int|
                0 <= i < view.factories@.len() ==> #[trigger] view.factories@[i]@
                    == self.tile_factories@[i]@,
            view.num_factories == self.tile_factories@.len(),
            view.pool@ == self.tile_pool@,
            view.num_tiles_in_pool == seq_sum(self.tile_pool@),
            view.end_of_round == self.spec_round_over(),
            view.white_tile_in_pool == self.white_tile_in_pool,
    {
        let mut factories: Vec<Vec<usize>> = Vec::new();
        let mut i: usize = 0;
        while i < self.tile_factories.len()
            invariant
                self.wf(),
                i <= self.tile_factories@.len(),
                factories@.len() == i,
                forall|j: int|
                    0 <= j < i ==> #[trigger] factories@[j]@ == self.tile_factories@[j]@,
            decreases self.tile_factories@.len() - i,
        {
            let src_f = &self.tile_factories[i];
            let mut f2: Vec<usize> = Vec::new();
            let mut j: usize = 0;
            while j < src_f.len()
                invariant
                    j <= src_f@.len(),
                    f2@.len() == j,
                    forall|k: int| 0 <= k < j ==> f2@[k] == src_f@[k],
                decreases src_f@.len() - j,
            {
                f2.push(src_f[j]);
                j = j + 1;
            }
            proof {
                assert(f2@ =~= self.tile_factories@[i as int]@);
            }
            factories.push(f2);
            i = i + 1;
        }
        let mut pool: Vec<usize> = Vec::new();
        let mut ci: usize = 0;
        while ci < 5
            invariant
                self.wf(),
                ci <= 5,
                pool@.len() == ci,
                forall|k: int| 0 <= k < ci ==> pool@[k] == self.tile_pool@[k],
            decreases 5 - ci,
        {
            pool.push(self.tile_pool[ci]);
            ci = ci + 1;
        }
        proof {
            assert(pool@ =~= self.tile_pool@);
            lemma_facts_total_nonneg(self.tile_factories@);
        }
        let mut num_tiles_in_pool: usize = 0;
        let mut pi: usize = 0;
        while pi < 5
            invariant
                self.wf(),
                pi <= 5,
                num_tiles_in_pool == seq_sum(self.tile_pool@.subrange(0, pi as int)),
                num_tiles_in_pool <= 100,
            decreases 5 - pi,
        {
            proof {
                assert(self.tile_pool@.subrange(0, pi + 1).drop_last() =~= self.tile_pool@.subrange(
                    0,
                    pi as int,
                ));
                lemma_seq_sum_prefix_le(self.tile_pool@, pi + 1);
                lemma_facts_total_nonneg(self.tile_factories@);
            }
            num_tiles_in_pool = num_tiles_in_pool + self.tile_pool[pi];
            pi = pi + 1;
        }
        proof {
            assert(self.tile_pool@.subrange(0, 5) =~= self.tile_pool@);
        }
        let num_factories = self.tile_factories.len();
        let end_of_round = self.end_of_round();
        BoardView {
            factories,
            num_factories,
            pool,
            num_tiles_in_pool,
            end_of_round,
            white_tile_in_pool: self.white_tile_in_pool,
        }
    }

    /// The arbiter's dispatch: applies one typed request to the board and
    /// builds the reply. Invalid moves are reported in-band with
    /// `success == false` and leave the board unchanged; a `BeginTurn`, a
    /// `TurnFinished` or an unrecognized message is rejected out-of-band,
    /// also leaving the board unchanged. A discard is served exactly like
    /// the corresponding draw; the drawn tiles then come back through
    /// `ReturnToBag`.
    pub fn process_msg(&mut self, msg: AzoolRequest) -> (r: Result<
        AzoolResponse,
        InvalidMoveError,
    >)
        requires
            old(self).wf(),
            msg matches AzoolRequest::ReturnToBag { tile_color, num_tiles_returned, .. }
                ==> is_drawable(tile_color) && old(self).total() + num_tiles_returned <= 100,
        ensures
            final(self).wf(),
            msg matches AzoolRequest::DrawFromFactory { current_player, factory_idx, tile_color }
                ==> Self::draw_from_factory_served(
                *old(self),
                *final(self),
                r,
                current_player,
                factory_idx,
                tile_color,
            ),
            msg matches AzoolRequest::DiscardFromFactory { current_player, factory_idx, tile_color }
                ==> Self::draw_from_factory_served(
                *old(self),
                *final(self),
                r,
                current_player,
                factory_idx,
                tile_color,
            ),
            msg matches AzoolRequest::DrawFromPool { current_player, tile_color }
                ==> Self::draw_from_pool_served(
                *old(self),
                *final(self),
                r,
                current_player,
                tile_color,
            ),
            msg matches AzoolRequest::DiscardFromPool { current_player, tile_color }
                ==> Self::draw_from_pool_served(
                *old(self),
                *final(self),
                r,
                current_player,
                tile_color,
            ),
            msg matches AzoolRequest::ReturnToBag { current_player, tile_color, num_tiles_returned }
                ==> Self::bag_return_applied(
                *old(self),
                *final(self),
                tile_color,
                num_tiles_returned as int,
            ) && r == Ok::<AzoolResponse, InvalidMoveError>(
                AzoolResponse::ReturnAck { current_player, success: true },
            ),
            msg matches AzoolRequest::GetBoard { current_player } ==> *final(self) == *old(self)
                && (r matches Ok(resp) && resp matches AzoolResponse::Board {
                current_player: echoed,
                view,
            } && echoed == current_player && view.pool@ == old(self).tile_pool@
                && view.num_factories == old(self).tile_factories@.len() && view.factories@.len()
                == old(self).tile_factories@.len() && (forall|i: int|
                0 <= i < view.factories@.len() ==> #[trigger] view.factories@[i]@ == old(
                    self,
                ).tile_factories@[i]@) && view.num_tiles_in_pool == seq_sum(old(self).tile_pool@)
                && view.end_of_round == old(self).spec_round_over() && view.white_tile_in_pool
                == old(self).white_tile_in_pool),
            (msg matches AzoolRequest::BeginTurn { .. } || msg matches AzoolRequest::TurnFinished {
                ..
            } || msg == AzoolRequest::Invalid) ==> r == Err::<AzoolResponse, InvalidMoveError>(
                InvalidMoveError::BadRequestError,
            ) && *final(self) == *old(self),
    {
        match msg {
            AzoolRequest::DrawFromFactory { current_player, factory_idx, tile_color } => {
                let result = self.take_tiles_from_factory(factory_idx, &tile_color);
                match result {
                    Ok(num) => Ok(
                        AzoolResponse::Draw {
                            current_player,
                            success: true,
                            num_tiles_returned: num,
                        },
                    ),
                    Err(_) => Ok(
                        AzoolResponse::Draw {
                            current_player,
                            success: false,
                            num_tiles_returned: 0,
                        },
                    ),
                }
            },
            AzoolRequest::DiscardFromFactory { current_player, factory_idx, tile_color } => {
                let result = self.take_tiles_from_factory(factory_idx, &tile_color);
                match result {
                    Ok(num) => Ok(
                        AzoolResponse::Draw {
                            current_player,
                            success: true,
                            num_tiles_returned: num,
                        },
                    ),
                    Err(_) => Ok(
                        AzoolResponse::Draw {
                            current_player,
                            success: false,
                            num_tiles_returned: 0,
                        },
                    ),
                }
            },
            AzoolRequest::DrawFromPool { current_player, tile_color } => {
                let result = self.take_tiles_from_pool(&tile_color);
                match result {
                    Ok(num) => {
                        let pool_penalty = self.white_tile_in_pool;
                        self.white_tile_in_pool = false;
                        Ok(
                            AzoolResponse::PoolDraw {
                                current_player,
                                success: true,
                                num_tiles_returned: num,
                                pool_penalty,
                            },
                        )
                    },
                    Err(_) => Ok(
                        AzoolResponse::PoolDraw {
                            current_player,
                            success: false,
                            num_tiles_returned: 0,
                            pool_penalty: false,
                        },
                    ),
                }
            },
            AzoolRequest::DiscardFromPool { current_player, tile_color } => {
                let result = self.take_tiles_from_pool(&tile_color);
                match result {
                    Ok(num) => {
                        let pool_penalty = self.white_tile_in_pool;
                        self.white_tile_in_pool = false;
                        Ok(
                            AzoolResponse::PoolDraw {
                                current_player,
                                success: true,
                                num_tiles_returned: num,
                                pool_penalty,
                            },
                        )
                    },
                    Err(_) => Ok(
                        AzoolResponse::PoolDraw {
                            current_player,
                            success: false,
                            num_tiles_returned: 0,
                            pool_penalty: false,
                        },
                    ),
                }
            },
            AzoolRequest::ReturnToBag { current_player, tile_color, num_tiles_returned } => {
                self.return_tiles_to_bag(num_tiles_returned, &tile_color);
                Ok(AzoolResponse::ReturnAck { current_player, success: true })
            },
            AzoolRequest::GetBoard { current_player } => {
                let view = self.serialize_game_board();
                Ok(AzoolResponse::Board { current_player, view })
            },
            AzoolRequest::BeginTurn { .. } => Err(InvalidMoveError::BadRequestError),
            AzoolRequest::TurnFinished { .. } => Err(InvalidMoveError::BadRequestError),
            AzoolRequest::Invalid => Err(InvalidMoveError::BadRequestError),
        }
    }

    /// How a factory draw or discard request is served: a valid one
    /// succeeds, returns the display's count of the color and applies the
    /// draw; an invalid one reports failure in-band and changes nothing.
    /// The first-player marker is untouched either way.
    pub open spec fn draw_from_factory_served(
        pre: GameBoard,
        post: GameBoard,
        r: Result<AzoolResponse, InvalidMoveError>,
        current_player: u8,
        factory_idx: usize,
        tile_color: TileColor,
    ) -> bool {
        &&& pre.spec_valid_factory_request(factory_idx as int, tile_color) ==> ({
            let n = pre.tile_factories@[factory_idx as int]@[color_index(tile_color)];
            &&& r == Ok::<AzoolResponse, InvalidMoveError>(
                AzoolResponse::Draw { current_player, success: true, num_tiles_returned: n },
            )
            &&& Self::factory_draw_applied(pre, post, factory_idx as int, tile_color)
            &&& post.white_tile_in_pool == pre.white_tile_in_pool
        })
        &&& !pre.spec_valid_factory_request(factory_idx as int, tile_color) ==> r == Ok::<
            AzoolResponse,
            InvalidMoveError,
        >(
            AzoolResponse::Draw { current_player, success: false, num_tiles_returned: 0 },
        ) && post == pre
    }

    /// How a pool draw or discard request is served: a valid one succeeds,
    /// returns the pool's count of the color, applies the draw, reports
    /// whether the first-player marker was still present and clears it; an
    /// invalid one reports failure in-band and changes nothing.
    pub open spec fn draw_from_pool_served(
        pre: GameBoard,
        post: GameBoard,
        r: Result<AzoolResponse, InvalidMoveError>,
        current_player: u8,
        tile_color: TileColor,
    ) -> bool {
        let valid = is_drawable(tile_color) && pre.tile_pool@[color_index(tile_color)] > 0;
        &&& valid ==> ({
            let n = pre.tile_pool@[color_index(tile_color)];
            &&& r == Ok::<AzoolResponse, InvalidMoveError>(
                AzoolResponse::PoolDraw {
                    current_player,
                    success: true,
                    num_tiles_returned: n as usize,
                    pool_penalty: pre.white_tile_in_pool,
                },
            )
            &&& Self::pool_draw_applied(pre, post, tile_color)
            &&& !post.white_tile_in_pool
        })
        &&& !valid ==> r == Ok::<AzoolResponse, InvalidMoveError>(
            AzoolResponse::PoolDraw {
                current_player,
                success: false,
                num_tiles_returned: 0,
                pool_penalty: false,
            },
        ) && post == pre
    }
}

/// A bag of only drawable tiles holds exactly as many tiles as the five
/// colors' counts together.
pub proof fn lemma_bag_len_is_color_sum(bag: Seq<TileColor>)
    requires
        forall|j: int| 0 <= j < bag.len() ==> is_drawable(#[trigger] bag[j]),
    ensures
        bag.len() == bag_count(bag, TileColor::RED) + bag_count(bag, TileColor::BLUE)
            + bag_count(bag, TileColor::GREEN) + bag_count(bag, TileColor::YELLOW) + bag_count(
            bag,
            TileColor::WHITE,
        ),
    decreases bag.len(),
{
    if bag.len() > 0 {
        assert forall|j: int| 0 <= j < bag.drop_last().len() implies is_drawable(
            #[trigger] bag.drop_last()[j],
        ) by {
            assert(bag.drop_last()[j] == bag[j]);
        }
        lemma_bag_len_is_color_sum(bag.drop_last());
        assert(is_drawable(bag[bag.len() - 1]));
    }
}

/// A row of five-entry displays holds exactly as many tiles as the five
/// colors' counts together.
pub proof fn lemma_facts_total_is_color_sum(fs: Seq<Vec<usize>>)
    requires
        forall|i: int| 0 <= i < fs.len() ==> (#[trigger] fs[i])@.len() == 5,
    ensures
        facts_total(fs) == facts_count(fs, 0) + facts_count(fs, 1) + facts_count(fs, 2)
            + facts_count(fs, 3) + facts_count(fs, 4),
    decreases fs.len(),
{
    if fs.len() > 0 {
        assert forall|i: int| 0 <= i < fs.drop_last().len() implies (#[trigger] fs.drop_last()[
            i
        ])@.len() == 5 by {
            assert(fs.drop_last()[i] == fs[i]);
        }
        lemma_facts_total_is_color_sum(fs.drop_last());
        lemma_seq_sum5(fs.last()@);
    }
}

/// Conservation of tiles: everything a well-formed board holds is in the
/// bag, the pool or a display, and every such tile has one of the five
/// drawable colors — so the board's total is exactly the sum of the five
/// per-color totals. A fresh board holds 20 of each color, 100 in all, and
/// every operation's contract accounts for each color's tiles exactly.
pub proof fn lemma_total_is_sum_of_color_totals(b: GameBoard)
    requires
        b.wf(),
    ensures
        b.total() == b.color_total(TileColor::RED) + b.color_total(TileColor::BLUE)
            + b.color_total(TileColor::GREEN) + b.color_total(TileColor::YELLOW) + b.color_total(
            TileColor::WHITE,
        ),
{
    lemma_bag_len_is_color_sum(b.tile_bag@);
    lemma_seq_sum5(b.tile_pool@);
    assert forall|i: int| 0 <= i < b.tile_factories@.len() implies (
    #[trigger] b.tile_factories@[i])@.len() == 5 by {
        assert(factory_ok(b.tile_factories@[i]));
    }
    lemma_facts_total_is_color_sum(b.tile_factories@);
}

/// One step of draining a dealt round: a valid draw from a display or from
/// the pool, applied as the board's operations apply it. The first-player
/// marker may or may not be cleared by a pool draw.
pub open spec fn drain_step(pre: GameBoard, post: GameBoard) -> bool {
    &&& post.wf()
    &&& {
        ||| exists|idx: int, c: TileColor|
            pre.spec_valid_factory_request(idx, c) && #[trigger] GameBoard::factory_draw_applied(
                pre,
                post,
                idx,
                c,
            )
        ||| exists|c: TileColor|
            is_drawable(c) && pre.tile_pool@[color_index(c)] > 0
                && #[trigger] GameBoard::pool_draw_applied(pre, post, c)
    }
}

/// No tile of a well-formed board is counted negatively.
pub proof fn lemma_color_total_nonneg(b: GameBoard, c: TileColor)
    requires
        b.wf(),
        is_drawable(c),
    ensures
        b.color_total(c) >= 0,
{
    lemma_bag_count_nonneg(b.tile_bag@, c);
    lemma_facts_count_nonneg(b.tile_factories@, color_index(c));
}

pub proof fn lemma_facts_count_nonneg(fs: Seq<Vec<usize>>, ci: int)
    ensures
        facts_count(fs, ci) >= 0,
    decreases fs.len(),
{
    if fs.len() > 0 {
        lemma_facts_count_nonneg(fs.drop_last(), ci);
    }
}

/// A well-formed board that admits no valid draw at all has ended its
/// round: a remaining display would hold four tiles, one of which could be
/// drawn, and a remaining pool tile could be drawn too.
pub proof fn lemma_no_valid_draw_means_round_over(b: GameBoard)
    requires
        b.wf(),
        forall|idx: int, c: TileColor| !b.spec_valid_factory_request(idx, c),
        forall|c: TileColor| is_drawable(c) ==> b.tile_pool@[#[trigger] color_index(c)] == 0,
    ensures
        b.spec_round_over(),
{
    if b.tile_factories@.len() > 0 {
        assert(factory_ok(b.tile_factories@[0]));
        lemma_seq_sum5(b.tile_factories@[0]@);
        assert(exists|ci: int| 0 <= ci < 5 && b.tile_factories@[0]@[ci] > 0);
        let ci = choose|ci: int| 0 <= ci < 5 && b.tile_factories@[0]@[ci] > 0;
        assert(color_index(color_of(ci)) == ci);
        assert(b.spec_valid_factory_request(0, color_of(ci)));
        assert(false);
    }
    assert forall|ci: int| 0 <= ci < 5 implies b.tile_pool@[ci] == 0 by {
        assert(is_drawable(color_of(ci)));
        assert(color_index(color_of(ci)) == ci);
    }
}

/// Round trip: after a deal, draining the displays and the pool through
/// valid draws alone neither loses nor duplicates a tile — the bag is
/// untouched and each color's tiles only pass to the drawing players — and
/// once no valid draw remains, the round is over and every tile the board
/// still holds sits in the bag, exactly as many of each color as before
/// the drain.
pub proof fn lemma_round_trip_drain(trace: Seq<GameBoard>)
    requires
        trace.len() >= 1,
        trace[0].wf(),
        forall|i: int| 0 <= i < trace.len() - 1 ==> #[trigger] drain_step(trace[i], trace[i + 1]),
        forall|idx: int, c: TileColor| !trace.last().spec_valid_factory_request(idx, c),
        forall|c: TileColor|
            is_drawable(c) ==> trace.last().tile_pool@[#[trigger] color_index(c)] == 0,
    ensures
        trace.last().spec_round_over(),
        trace.last().tile_bag == trace[0].tile_bag,
        forall|c: TileColor|
            is_drawable(c) ==> 0 <= #[trigger] trace.last().color_total(c) <= trace[
                0
            ].color_total(c),
        forall|c: TileColor|
            is_drawable(c) ==> #[trigger] trace.last().color_total(c) == bag_count(
                trace[0].tile_bag@,
                c,
            ),
{
    lemma_drain_preserves_bag(trace);
    lemma_no_valid_draw_means_round_over(trace.last());
    assert forall|c: TileColor| is_drawable(c) implies #[trigger] trace.last().color_total(c)
        == bag_count(trace[0].tile_bag@, c) by {
        assert(trace.last().tile_factories@.len() == 0);
        assert(facts_count(trace.last().tile_factories@, color_index(c)) == 0);
        assert(trace.last().tile_pool@[color_index(c)] == 0);
    }
}

/// Along a drain, the bag never changes, the boards stay well formed, and
/// each color's tile total never grows.
pub proof fn lemma_drain_preserves_bag(trace: Seq<GameBoard>)
    requires
        trace.len() >= 1,
        trace[0].wf(),
        forall|i: int| 0 <= i < trace.len() - 1 ==> #[trigger] drain_step(trace[i], trace[i + 1]),
    ensures
        trace.last().wf(),
        trace.last().tile_bag == trace[0].tile_bag,
        forall|c: TileColor|
            is_drawable(c) ==> 0 <= #[trigger] trace.last().color_total(c) <= trace[
                0
            ].color_total(c),
    decreases trace.len(),
{
    if trace.len() == 1 {
        assert forall|c: TileColor| is_drawable(c) implies 0 <= #[trigger] trace.last()
            .color_total(c) <= trace[0].color_total(c) by {
            lemma_color_total_nonneg(trace[0], c);
        }
    } else {
        let front = trace.drop_last();
        assert forall|i: int| 0 <= i < front.len() - 1 implies #[trigger] drain_step(
            front[i],
            front[i + 1],
        ) by {
            assert(front[i] == trace[i]);
            assert(front[i + 1] == trace[i + 1]);
            assert(drain_step(trace[i], trace[i + 1]));
        }
        lemma_drain_preserves_bag(front);
        let pre = trace[trace.len() - 2];
        let post = trace.last();
        assert(front.last() == pre);
        let n = trace.len() as int;
        assert(drain_step(trace[n - 2], trace[n - 2 + 1]));
        assert(trace[n - 2 + 1] == post);
        assert(drain_step(pre, post));
        assert forall|c: TileColor| is_drawable(c) implies 0 <= #[trigger] post.color_total(c)
            <= trace[0].color_total(c) by {
            lemma_color_total_nonneg(post, c);
            if exists|idx: int, c0: TileColor|
                pre.spec_valid_factory_request(idx, c0)
                    && #[trigger] GameBoard::factory_draw_applied(pre, post, idx, c0) {
                let (idx, c0) = choose|idx: int, c0: TileColor|
                    pre.spec_valid_factory_request(idx, c0)
                        && #[trigger] GameBoard::factory_draw_applied(pre, post, idx, c0);
                if c == c0 {
                    assert(post.color_total(c) <= pre.color_total(c));
                } else {
                    assert(post.color_total(c) == pre.color_total(c));
                }
            } else {
                let c0 = choose|c0: TileColor|
                    is_drawable(c0) && pre.tile_pool@[color_index(c0)] > 0
                        && #[trigger] GameBoard::pool_draw_applied(pre, post, c0);
                if c == c0 {
                    assert(post.color_total(c) <= pre.color_total(c));
                } else {
                    assert(post.color_total(c) == pre.color_total(c));
                }
            }
        }
    }
}

} // verus!
