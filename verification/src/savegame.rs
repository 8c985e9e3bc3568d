//! The persistence format: a game state as a structured text document, one
//! zero-padded decimal number per line, together with a verified decoder
//! and the round-trip law. File reading and writing stay outside the
//! library; it only produces and consumes the bytes.

use vstd::prelude::*;

use crate::entity::{Block, Direction, Food, FoodType, GameState, GameStateModel, Snake, SnakeModel};

verus! {

/// An ASCII decimal digit.
pub open spec fn is_digit(c: u8) -> bool {
    48 <= c <= 57
}

/// A `u32` as one text line: exactly ten decimal digits, zero-padded, then
/// a line feed.
#[verifier::opaque]
pub open spec fn enc_u32(n: u32) -> Seq<u8> {
    let x = n as int;
    let d0 = x / 1000000000;
    let r0 = x % 1000000000;
    let d1 = r0 / 100000000;
    let r1 = r0 % 100000000;
    let d2 = r1 / 10000000;
    let r2 = r1 % 10000000;
    let d3 = r2 / 1000000;
    let r3 = r2 % 1000000;
    let d4 = r3 / 100000;
    let r4 = r3 % 100000;
    let d5 = r4 / 10000;
    let r5 = r4 % 10000;
    let d6 = r5 / 1000;
    let r6 = r5 % 1000;
    let d7 = r6 / 100;
    let r7 = r6 % 100;
    let d8 = r7 / 10;
    let d9 = r7 % 10;
    seq![
        (48 + d0) as u8,
        (48 + d1) as u8,
        (48 + d2) as u8,
        (48 + d3) as u8,
        (48 + d4) as u8,
        (48 + d5) as u8,
        (48 + d6) as u8,
        (48 + d7) as u8,
        (48 + d8) as u8,
        (48 + d9) as u8,
        10u8,
    ]
}

/// The number read from one such line at `pos`, or nothing where the bytes
/// are not ten digits, a line feed, and a value that fits a `u32`.
#[verifier::opaque]
pub open spec fn dec_u32_at(b: Seq<u8>, pos: int) -> Option<u32> {
    if pos >= 0 && pos + 11 <= b.len() && is_digit(b[pos]) && is_digit(b[pos + 1]) && is_digit(
        b[pos + 2],
    ) && is_digit(b[pos + 3]) && is_digit(b[pos + 4]) && is_digit(b[pos + 5]) && is_digit(
        b[pos + 6],
    ) && is_digit(b[pos + 7]) && is_digit(b[pos + 8]) && is_digit(b[pos + 9]) && b[pos + 10]
        == 10u8 {
        let v = (b[pos] - 48) * 1000000000 + (b[pos + 1] - 48) * 100000000 + (b[pos + 2] - 48)
            * 10000000 + (b[pos + 3] - 48) * 1000000 + (b[pos + 4] - 48) * 100000 + (b[pos + 5]
            - 48) * 10000 + (b[pos + 6] - 48) * 1000 + (b[pos + 7] - 48) * 100 + (b[pos + 8] - 48)
            * 10 + (b[pos + 9] - 48);
        if v <= u32::MAX {
            Some(v as u32)
        } else {
            None
        }
    } else {
        None
    }
}

/// A number line is always eleven bytes.
pub proof fn lemma_enc_u32_len(n: u32)
    ensures
        enc_u32(n).len() == 11,
{
    reveal(enc_u32);
}

/// Reading a number line back gives exactly the number it encodes.
pub proof fn lemma_dec_enc_u32(b: Seq<u8>, pos: int, n: u32)
    requires
        pos >= 0,
        pos + 11 <= b.len(),
        b.subrange(pos, pos + 11) == enc_u32(n),
    ensures
        dec_u32_at(b, pos) == Some(n),
{
    reveal(enc_u32);
    reveal(dec_u32_at);
    assert forall|i: int| 0 <= i < 11 implies b[pos + i] == enc_u32(n)[i] by {
        assert(b.subrange(pos, pos + 11)[i] == b[pos + i]);
    }
}

/// A line the reader accepts is exactly the encoding of the number it
/// read: the format has one spelling per number.
pub proof fn lemma_enc_dec_u32(b: Seq<u8>, pos: int, n: u32)
    requires
        dec_u32_at(b, pos) == Some(n),
    ensures
        pos >= 0,
        pos + 11 <= b.len(),
        b.subrange(pos, pos + 11) == enc_u32(n),
{
    reveal(enc_u32);
    reveal(dec_u32_at);
    let d0 = b[pos] - 48;
    let d1 = b[pos + 1] - 48;
    let d2 = b[pos + 2] - 48;
    let d3 = b[pos + 3] - 48;
    let d4 = b[pos + 4] - 48;
    let d5 = b[pos + 5] - 48;
    let d6 = b[pos + 6] - 48;
    let d7 = b[pos + 7] - 48;
    let d8 = b[pos + 8] - 48;
    let d9 = b[pos + 9] - 48;
    let x = n as int;
    // The digits of the accepted line are the base-10 digits of the value:
    // peel them off most significant first.
    let t0 = d1 * 100000000 + d2 * 10000000 + d3 * 1000000 + d4 * 100000 + d5 * 10000 + d6 * 1000
        + d7 * 100 + d8 * 10 + d9;
    assert(0 <= t0 < 1000000000);
    assert(x == d0 * 1000000000 + t0);
    assert(x / 1000000000 == d0 && x % 1000000000 == t0);
    let t1 = d2 * 10000000 + d3 * 1000000 + d4 * 100000 + d5 * 10000 + d6 * 1000 + d7 * 100 + d8
        * 10 + d9;
    assert(t0 / 100000000 == d1 && t0 % 100000000 == t1);
    let t2 = d3 * 1000000 + d4 * 100000 + d5 * 10000 + d6 * 1000 + d7 * 100 + d8 * 10 + d9;
    assert(t1 / 10000000 == d2 && t1 % 10000000 == t2);
    let t3 = d4 * 100000 + d5 * 10000 + d6 * 1000 + d7 * 100 + d8 * 10 + d9;
    assert(t2 / 1000000 == d3 && t2 % 1000000 == t3);
    let t4 = d5 * 10000 + d6 * 1000 + d7 * 100 + d8 * 10 + d9;
    assert(t3 / 100000 == d4 && t3 % 100000 == t4);
    let t5 = d6 * 1000 + d7 * 100 + d8 * 10 + d9;
    assert(t4 / 10000 == d5 && t4 % 10000 == t5);
    let t6 = d7 * 100 + d8 * 10 + d9;
    assert(t5 / 1000 == d6 && t5 % 1000 == t6);
    let t7 = d8 * 10 + d9;
    assert(t6 / 100 == d7 && t6 % 100 == t7);
    assert(t7 / 10 == d8 && t7 % 10 == d9);
    assert(b.subrange(pos, pos + 11) =~= enc_u32(n));
}

/// Append `enc_u32(n)` to `out`.
fn push_u32(out: &mut Vec<u8>, n: u32)
    ensures
        final(out)@ == old(out)@ + enc_u32(n),
{
    let d0 = n / 1000000000;
    let r0 = n % 1000000000;
    let d1 = r0 / 100000000;
    let r1 = r0 % 100000000;
    let d2 = r1 / 10000000;
    let r2 = r1 % 10000000;
    let d3 = r2 / 1000000;
    let r3 = r2 % 1000000;
    let d4 = r3 / 100000;
    let r4 = r3 % 100000;
    let d5 = r4 / 10000;
    let r5 = r4 % 10000;
    let d6 = r5 / 1000;
    let r6 = r5 % 1000;
    let d7 = r6 / 100;
    let r7 = r6 % 100;
    let d8 = r7 / 10;
    let d9 = r7 % 10;
    out.push(48 + d0 as u8);
    out.push(48 + d1 as u8);
    out.push(48 + d2 as u8);
    out.push(48 + d3 as u8);
    out.push(48 + d4 as u8);
    out.push(48 + d5 as u8);
    out.push(48 + d6 as u8);
    out.push(48 + d7 as u8);
    out.push(48 + d8 as u8);
    out.push(48 + d9 as u8);
    out.push(10);
    proof {
        reveal(enc_u32);
        assert(out@ =~= old(out)@ + enc_u32(n));
    }
}

/// Read the number line at `pos`, as `dec_u32_at` describes.
fn parse_u32_at(b: &Vec<u8>, pos: usize) -> (r: Option<u32>)
    ensures
        r == dec_u32_at(b@, pos as int),
        r is Some ==> pos + 11 <= b@.len(),
{
    proof {
        reveal(dec_u32_at);
    }
    if b.len() < 11 || pos > b.len() - 11 {
        return None;
    }
    let c0 = b[pos];
    let c1 = b[pos + 1];
    let c2 = b[pos + 2];
    let c3 = b[pos + 3];
    let c4 = b[pos + 4];
    let c5 = b[pos + 5];
    let c6 = b[pos + 6];
    let c7 = b[pos + 7];
    let c8 = b[pos + 8];
    let c9 = b[pos + 9];
    if c0 < 48 || c0 > 57 || c1 < 48 || c1 > 57 || c2 < 48 || c2 > 57 || c3 < 48 || c3 > 57 || c4
        < 48 || c4 > 57 || c5 < 48 || c5 > 57 || c6 < 48 || c6 > 57 || c7 < 48 || c7 > 57 || c8
        < 48 || c8 > 57 || c9 < 48 || c9 > 57 {
        return None;
    }
    if b[pos + 10] != 10 {
        return None;
    }
    let v: u64 = ((c0 - 48) as u64) * 1000000000 + ((c1 - 48) as u64) * 100000000 + ((c2
        - 48) as u64) * 10000000 + ((c3 - 48) as u64) * 1000000 + ((c4 - 48) as u64) * 100000 + ((
    c5 - 48) as u64) * 10000 + ((c6 - 48) as u64) * 1000 + ((c7 - 48) as u64) * 100 + ((c8
        - 48) as u64) * 10 + ((c9 - 48) as u64);
    if v > 4294967295u64 {
        return None;
    }
    Some(v as u32)
}

/// The number standing for a direction in the document.
pub open spec fn dir_code(d: Direction) -> u32 {
    match d {
        Direction::Up => 0,
        Direction::Down => 1,
        Direction::Left => 2,
        Direction::Right => 3,
    }
}

/// The direction a stored number stands for.
pub open spec fn code_dir(n: u32) -> Option<Direction> {
    if n == 0 {
        Some(Direction::Up)
    } else if n == 1 {
        Some(Direction::Down)
    } else if n == 2 {
        Some(Direction::Left)
    } else if n == 3 {
        Some(Direction::Right)
    } else {
        None
    }
}

/// The number standing for a food category in the document.
pub open spec fn food_code(t: FoodType) -> u32 {
    match t {
        FoodType::Cherry => 0,
        FoodType::Banana => 1,
        FoodType::Apple => 2,
    }
}

/// The food category a stored number stands for.
pub open spec fn code_food(n: u32) -> Option<FoodType> {
    if n == 0 {
        Some(FoodType::Cherry)
    } else if n == 1 {
        Some(FoodType::Banana)
    } else if n == 2 {
        Some(FoodType::Apple)
    } else {
        None
    }
}

/// The body cells, head first: one line for each column, one for each row.
pub open spec fn enc_blocks(body: Seq<Block>) -> Seq<u8>
    decreases body.len(),
{
    if body.len() == 0 {
        Seq::empty()
    } else {
        enc_u32(body[0].0) + enc_u32(body[0].1) + enc_blocks(body.subrange(1, body.len() as int))
    }
}

/// The food item: a presence flag, then category and cell when present.
pub open spec fn enc_food(food: Option<Food>) -> Seq<u8> {
    match food {
        None => enc_u32(0),
        Some(f) => enc_u32(1) + enc_u32(food_code(f.type_)) + enc_u32(f.position.0) + enc_u32(
            f.position.1,
        ),
    }
}

/// A whole game state as one document: direction, growth counter, body
/// length and cells, food, score, level, speed, and the game-over flag.
pub open spec fn enc_state(g: GameStateModel) -> Seq<u8> {
    enc_u32(dir_code(g.snake.direction)) + enc_u32(g.snake.eat) + enc_u32(
        g.snake.body.len() as u32,
    ) + enc_blocks(g.snake.body) + enc_food(g.food) + enc_u32(g.score) + enc_u32(g.level) + enc_u32(
        g.speed,
    ) + enc_u32(
        if g.game_over {
            1u32
        } else {
            0u32
        },
    )
}

/// Read `count` cells starting at `pos`, appending them to `acc`; gives
/// the cells and the position after them.
pub open spec fn dec_blocks(b: Seq<u8>, pos: int, count: int, acc: Seq<Block>) -> Option<
    (Seq<Block>, int),
>
    decreases count,
{
    if count <= 0 {
        Some((acc, pos))
    } else {
        match dec_u32_at(b, pos) {
            None => None,
            Some(x) => match dec_u32_at(b, pos + 11) {
                None => None,
                Some(y) => dec_blocks(b, pos + 22, count - 1, acc.push(Block(x, y))),
            },
        }
    }
}

/// Read the food item at `pos`; gives it and the position after it.
pub open spec fn dec_food_at(b: Seq<u8>, pos: int) -> Option<(Option<Food>, int)> {
    match dec_u32_at(b, pos) {
        None => None,
        Some(flag) => if flag == 0 {
            Some((None, pos + 11))
        } else if flag == 1 {
            match dec_u32_at(b, pos + 11) {
                None => None,
                Some(tc) => match code_food(tc) {
                    None => None,
                    Some(t) => match dec_u32_at(b, pos + 22) {
                        None => None,
                        Some(x) => match dec_u32_at(b, pos + 33) {
                            None => None,
                            Some(y) => Some(
                                (Some(Food { type_: t, position: Block(x, y) }), pos + 44),
                            ),
                        },
                    },
                },
            }
        } else {
            None
        },
    }
}

/// The game state a document holds, or nothing where the document is not
/// exactly one encoded state.
pub open spec fn dec_state(b: Seq<u8>) -> Option<GameStateModel> {
    match dec_u32_at(b, 0) {
        None => None,
        Some(dc) => match code_dir(dc) {
            None => None,
            Some(direction) => match dec_u32_at(b, 11) {
                None => None,
                Some(eat) => match dec_u32_at(b, 22) {
                    None => None,
                    Some(len) => match dec_blocks(b, 33, len as int, Seq::empty()) {
                        None => None,
                        Some((body, pos1)) => match dec_food_at(b, pos1) {
                            None => None,
                            Some((food, pos2)) => match dec_u32_at(b, pos2) {
                                None => None,
                                Some(score) => match dec_u32_at(b, pos2 + 11) {
                                    None => None,
                                    Some(level) => match dec_u32_at(b, pos2 + 22) {
                                        None => None,
                                        Some(speed) => match dec_u32_at(b, pos2 + 33) {
                                            None => None,
                                            Some(go) => if go <= 1 && pos2 + 44 == b.len() {
                                                Some(
                                                    GameStateModel {
                                                        food,
                                                        snake: SnakeModel {
                                                            body,
                                                            direction,
                                                            eat,
                                                        },
                                                        score,
                                                        level,
                                                        speed,
                                                        game_over: go == 1,
                                                    },
                                                )
                                            } else {
                                                None
                                            },
                                        },
                                    },
                                },
                            },
                        },
                    },
                },
            },
        },
    }
}

/// An encoded cell list is `22` bytes per cell.
pub proof fn lemma_enc_blocks_len(body: Seq<Block>)
    ensures
        enc_blocks(body).len() == 22 * body.len(),
    decreases body.len(),
{
    if body.len() > 0 {
        lemma_enc_u32_len(body[0].0);
        lemma_enc_u32_len(body[0].1);
        lemma_enc_blocks_len(body.subrange(1, body.len() as int));
    }
}

/// Where a window of `w` holds the concatenation `a + c`, its two halves
/// hold `a` and `c`.
proof fn lemma_concat_parts(a: Seq<u8>, c: Seq<u8>, w: Seq<u8>, pos: int)
    requires
        0 <= pos,
        pos + a.len() + c.len() <= w.len(),
        w.subrange(pos, pos + a.len() + c.len()) == a + c,
    ensures
        w.subrange(pos, pos + a.len()) == a,
        w.subrange(pos + a.len() as int, pos + a.len() + c.len()) == c,
{
    assert forall|j: int| pos <= j < pos + a.len() + c.len() implies w[j] == (a + c)[j - pos] by {
        assert(w.subrange(pos, pos + a.len() + c.len())[j - pos] == w[j]);
    }
    assert(w.subrange(pos, pos + a.len()) =~= a);
    assert(w.subrange(pos + a.len() as int, pos + a.len() + c.len()) =~= c);
}

/// Where two adjacent windows of `w` hold `a` and `c`, the window over
/// both holds `a + c`.
proof fn lemma_parts_concat(a: Seq<u8>, c: Seq<u8>, w: Seq<u8>, pos: int)
    requires
        0 <= pos,
        pos + a.len() + c.len() <= w.len(),
        w.subrange(pos, pos + a.len()) == a,
        w.subrange(pos + a.len() as int, pos + a.len() + c.len()) == c,
    ensures
        w.subrange(pos, pos + a.len() + c.len()) == a + c,
{
    assert forall|j: int| pos <= j < pos + a.len() implies w[j] == a[j - pos] by {
        assert(w.subrange(pos, pos + a.len())[j - pos] == w[j]);
    }
    assert forall|j: int| pos + a.len() <= j < pos + a.len() + c.len() implies w[j] == c[j - pos
        - a.len()] by {
        assert(w.subrange(pos + a.len() as int, pos + a.len() + c.len())[j - pos - a.len()]
            == w[j]);
    }
    assert(w.subrange(pos, pos + a.len() + c.len()) =~= a + c);
}

/// Reading cell lines back recovers exactly the cells they encode.
pub proof fn lemma_dec_enc_blocks(b: Seq<u8>, pos: int, body: Seq<Block>, acc: Seq<Block>)
    requires
        pos >= 0,
        pos + 22 * body.len() <= b.len(),
        b.subrange(pos, pos + 22 * body.len()) == enc_blocks(body),
    ensures
        dec_blocks(b, pos, body.len() as int, acc) == Some((acc + body, pos + 22 * body.len())),
    decreases body.len(),
{
    lemma_enc_blocks_len(body);
    if body.len() == 0 {
        assert(acc + body =~= acc);
    } else {
        let rest = body.subrange(1, body.len() as int);
        lemma_enc_blocks_len(rest);
        let e1 = enc_u32(body[0].0);
        let e2 = enc_u32(body[0].1);
        lemma_enc_u32_len(body[0].0);
        lemma_enc_u32_len(body[0].1);
        lemma_concat_parts(e1 + e2, enc_blocks(rest), b, pos);
        lemma_concat_parts(e1, e2, b, pos);
        lemma_dec_enc_u32(b, pos, body[0].0);
        lemma_dec_enc_u32(b, pos + 11, body[0].1);
        lemma_dec_enc_blocks(b, pos + 22, rest, acc.push(body[0]));
        assert(acc.push(body[0]) + rest =~= acc + body);
    }
}

/// Extending an encoded prefix of the cell list by one cell appends that
/// cell's two lines.
proof fn lemma_enc_blocks_snoc(body: Seq<Block>, i: int)
    requires
        0 <= i < body.len(),
    ensures
        enc_blocks(body.subrange(0, i + 1)) == enc_blocks(body.subrange(0, i)) + enc_u32(
            body[i].0,
        ) + enc_u32(body[i].1),
    decreases i,
{
    if i == 0 {
        reveal_with_fuel(enc_blocks, 2);
        let one = body.subrange(0, 1);
        assert(one.subrange(1, 1) =~= Seq::<Block>::empty());
        assert(enc_blocks(body.subrange(0, 0)) =~= Seq::<u8>::empty());
        assert(enc_blocks(one) =~= Seq::<u8>::empty() + enc_u32(body[0].0) + enc_u32(body[0].1));
    } else {
        let tail = body.subrange(1, body.len() as int);
        lemma_enc_blocks_snoc(tail, i - 1);
        let upto = body.subrange(0, i + 1);
        assert(upto.subrange(1, i + 1) =~= tail.subrange(0, i));
        assert(body.subrange(0, i).subrange(1, i) =~= tail.subrange(0, i - 1));
        assert(tail[i - 1] == body[i]);
        assert(enc_blocks(upto) == enc_u32(body[0].0) + enc_u32(body[0].1) + enc_blocks(
            tail.subrange(0, i),
        ));
        assert(enc_blocks(body.subrange(0, i)) == enc_u32(body[0].0) + enc_u32(body[0].1)
            + enc_blocks(tail.subrange(0, i - 1)));
        assert(enc_u32(body[0].0) + enc_u32(body[0].1) + (enc_blocks(tail.subrange(0, i - 1))
            + enc_u32(body[i].0) + enc_u32(body[i].1)) =~= enc_u32(body[0].0) + enc_u32(body[0].1)
            + enc_blocks(tail.subrange(0, i - 1)) + enc_u32(body[i].0) + enc_u32(body[i].1));
    }
}

/// Cell lines the reader accepts are exactly the encoding of the cells it
/// read beyond those it started with.
pub proof fn lemma_enc_dec_blocks(
    b: Seq<u8>,
    pos: int,
    count: int,
    acc: Seq<Block>,
    body: Seq<Block>,
    end: int,
)
    requires
        pos >= 0,
        pos <= b.len(),
        count >= 0,
        dec_blocks(b, pos, count, acc) == Some((body, end)),
    ensures
        body.len() == acc.len() + count,
        body.subrange(0, acc.len() as int) == acc,
        end == pos + 22 * count,
        end <= b.len(),
        b.subrange(pos, end) == enc_blocks(body.subrange(acc.len() as int, body.len() as int)),
    decreases count,
{
    reveal_with_fuel(enc_blocks, 2);
    if count == 0 {
        assert(body.subrange(0, acc.len() as int) =~= acc);
        assert(body.subrange(acc.len() as int, body.len() as int) =~= Seq::<Block>::empty());
        assert(b.subrange(pos, pos) =~= Seq::<u8>::empty());
    } else {
        let x = dec_u32_at(b, pos)->Some_0;
        let y = dec_u32_at(b, pos + 11)->Some_0;
        lemma_enc_dec_u32(b, pos, x);
        lemma_enc_dec_u32(b, pos + 11, y);
        lemma_enc_u32_len(x);
        lemma_enc_u32_len(y);
        lemma_enc_dec_blocks(b, pos + 22, count - 1, acc.push(Block(x, y)), body, end);
        let al = acc.len() as int;
        assert forall|i: int| 0 <= i <= al implies body[i] == acc.push(Block(x, y))[i] by {
            assert(body.subrange(0, al + 1)[i] == body[i]);
        }
        assert(body.subrange(0, al) =~= acc);
        assert(body[al] == Block(x, y));
        let tail = body.subrange(al, body.len() as int);
        assert(tail[0] == Block(x, y));
        assert(tail.subrange(1, tail.len() as int) =~= body.subrange(al + 1, body.len() as int));
        lemma_parts_concat(enc_u32(x), enc_u32(y), b, pos);
        lemma_parts_concat(
            enc_u32(x) + enc_u32(y),
            enc_blocks(body.subrange(al + 1, body.len() as int)),
            b,
            pos,
        );
        assert(enc_blocks(tail) == enc_u32(x) + enc_u32(y) + enc_blocks(
            tail.subrange(1, tail.len() as int),
        ));
    }
}

/// Reading a document written by the encoder gives back exactly the state
/// that was written: the save round-trips, field for field, body order
/// included.
#[verifier::rlimit(100)]
pub proof fn lemma_dec_enc_state(g: GameStateModel)
    requires
        g.snake.body.len() <= u32::MAX,
    ensures
        dec_state(enc_state(g)) == Some(g),
{
    let b = enc_state(g);
    let body = g.snake.body;
    lemma_enc_blocks_len(body);
    let dirv = dir_code(g.snake.direction);
    let lenv = body.len() as u32;
    let gov: u32 = if g.game_over { 1 } else { 0 };
    let e0 = enc_u32(dirv);
    let e1 = enc_u32(g.snake.eat);
    let e2 = enc_u32(lenv);
    let eb = enc_blocks(body);
    let ef = enc_food(g.food);
    let e5 = enc_u32(g.score);
    let e6 = enc_u32(g.level);
    let e7 = enc_u32(g.speed);
    let e8 = enc_u32(gov);
    let blen = body.len() as int;
    let flen: int = if g.food is Some { 44 } else { 11 };
    lemma_enc_u32_len(dirv);
    lemma_enc_u32_len(g.snake.eat);
    lemma_enc_u32_len(lenv);
    lemma_enc_u32_len(g.score);
    lemma_enc_u32_len(g.level);
    lemma_enc_u32_len(g.speed);
    lemma_enc_u32_len(gov);
    lemma_enc_u32_len(0);
    lemma_enc_u32_len(1);
    if let Some(f) = g.food {
        lemma_enc_u32_len(food_code(f.type_));
        lemma_enc_u32_len(f.position.0);
        lemma_enc_u32_len(f.position.1);
    }
    assert(ef.len() == flen);
    assert(eb.len() == 22 * blen);
    let all = b.len() as int;
    assert(all == 77 + 22 * blen + flen);
    assert(b.subrange(0, all) =~= b);
    // Peel the segments off the document, last first.
    lemma_concat_parts(e0 + e1 + e2 + eb + ef + e5 + e6 + e7, e8, b, 0);
    lemma_concat_parts(e0 + e1 + e2 + eb + ef + e5 + e6, e7, b, 0);
    lemma_concat_parts(e0 + e1 + e2 + eb + ef + e5, e6, b, 0);
    lemma_concat_parts(e0 + e1 + e2 + eb + ef, e5, b, 0);
    lemma_concat_parts(e0 + e1 + e2 + eb, ef, b, 0);
    lemma_concat_parts(e0 + e1 + e2, eb, b, 0);
    lemma_concat_parts(e0 + e1, e2, b, 0);
    lemma_concat_parts(e0, e1, b, 0);
    lemma_dec_enc_u32(b, 0, dirv);
    assert(code_dir(dir_code(g.snake.direction)) == Some(g.snake.direction));
    lemma_dec_enc_u32(b, 11, g.snake.eat);
    lemma_dec_enc_u32(b, 22, lenv);
    lemma_dec_enc_blocks(b, 33, body, Seq::empty());
    assert(Seq::empty() + body =~= body);
    let pos1: int = 33 + 22 * blen;
    match g.food {
        None => {
            lemma_dec_enc_u32(b, pos1, 0);
            assert(dec_food_at(b, pos1) == Some((None::<Food>, pos1 + 11)));
        },
        Some(f) => {
            let f0 = enc_u32(1);
            let f1 = enc_u32(food_code(f.type_));
            let f2 = enc_u32(f.position.0);
            let f3 = enc_u32(f.position.1);
            lemma_concat_parts(f0 + f1 + f2, f3, b, pos1);
            lemma_concat_parts(f0 + f1, f2, b, pos1);
            lemma_concat_parts(f0, f1, b, pos1);
            lemma_dec_enc_u32(b, pos1, 1);
            lemma_dec_enc_u32(b, pos1 + 11, food_code(f.type_));
            assert(code_food(food_code(f.type_)) == Some(f.type_));
            lemma_dec_enc_u32(b, pos1 + 22, f.position.0);
            lemma_dec_enc_u32(b, pos1 + 33, f.position.1);
            assert(dec_food_at(b, pos1) == Some((g.food, pos1 + 44)));
        },
    }
    let pos2: int = pos1 + flen;
    lemma_dec_enc_u32(b, pos2, g.score);
    lemma_dec_enc_u32(b, pos2 + 11, g.level);
    lemma_dec_enc_u32(b, pos2 + 22, g.speed);
    lemma_dec_enc_u32(b, pos2 + 33, gov);
    assert(pos2 + 44 == b.len());
}

/// A document the reader accepts is exactly the encoding of the state it
/// read: the format has one spelling per state, and the reader accepts
/// nothing else.
#[verifier::rlimit(100)]
pub proof fn lemma_enc_dec_state(b: Seq<u8>, g: GameStateModel)
    requires
        dec_state(b) == Some(g),
    ensures
        g.snake.body.len() <= u32::MAX,
        b == enc_state(g),
{
    let dc = dec_u32_at(b, 0)->Some_0;
    let eat = dec_u32_at(b, 11)->Some_0;
    let len = dec_u32_at(b, 22)->Some_0;
    lemma_enc_dec_u32(b, 0, dc);
    lemma_enc_dec_u32(b, 11, eat);
    lemma_enc_dec_u32(b, 22, len);
    assert(dc == dir_code(g.snake.direction));
    let pair = dec_blocks(b, 33, len as int, Seq::empty())->Some_0;
    let body = pair.0;
    let pos1 = pair.1;
    lemma_enc_dec_blocks(b, 33, len as int, Seq::empty(), body, pos1);
    assert(body == g.snake.body);
    assert(body.subrange(0, body.len() as int) =~= body);
    let eb = enc_blocks(g.snake.body);
    assert(b.subrange(33, pos1) == eb);
    lemma_enc_blocks_len(g.snake.body);
    let flag = dec_u32_at(b, pos1)->Some_0;
    lemma_enc_dec_u32(b, pos1, flag);
    let fpair = dec_food_at(b, pos1)->Some_0;
    let pos2 = fpair.1;
    let ef = enc_food(g.food);
    lemma_enc_u32_len(flag);
    if flag == 0 {
        assert(g.food is None);
        assert(pos2 == pos1 + 11);
        assert(b.subrange(pos1, pos2) == ef);
    } else {
        assert(flag == 1);
        assert(pos2 == pos1 + 44);
        let tc = dec_u32_at(b, pos1 + 11)->Some_0;
        let fx = dec_u32_at(b, pos1 + 22)->Some_0;
        let fy = dec_u32_at(b, pos1 + 33)->Some_0;
        lemma_enc_dec_u32(b, pos1 + 11, tc);
        lemma_enc_dec_u32(b, pos1 + 22, fx);
        lemma_enc_dec_u32(b, pos1 + 33, fy);
        let f = g.food->Some_0;
        assert(tc == food_code(f.type_) && fx == f.position.0 && fy == f.position.1);
        lemma_enc_u32_len(tc);
        lemma_enc_u32_len(fx);
        lemma_enc_u32_len(fy);
        lemma_parts_concat(enc_u32(1), enc_u32(tc), b, pos1);
        lemma_parts_concat(enc_u32(1) + enc_u32(tc), enc_u32(fx), b, pos1);
        lemma_parts_concat(enc_u32(1) + enc_u32(tc) + enc_u32(fx), enc_u32(fy), b, pos1);
        assert(b.subrange(pos1, pos2) == ef);
    }
    let score = dec_u32_at(b, pos2)->Some_0;
    let level = dec_u32_at(b, pos2 + 11)->Some_0;
    let speed = dec_u32_at(b, pos2 + 22)->Some_0;
    let go = dec_u32_at(b, pos2 + 33)->Some_0;
    lemma_enc_dec_u32(b, pos2, score);
    lemma_enc_dec_u32(b, pos2 + 11, level);
    lemma_enc_dec_u32(b, pos2 + 22, speed);
    lemma_enc_dec_u32(b, pos2 + 33, go);
    assert(go == (if g.game_over { 1u32 } else { 0u32 }));
    assert(pos2 + 44 == b.len());
    // Assemble the document, segment by segment from the left.
    let e0 = enc_u32(dir_code(g.snake.direction));
    let e1 = enc_u32(g.snake.eat);
    let e2 = enc_u32(g.snake.body.len() as u32);
    let e5 = enc_u32(g.score);
    let e6 = enc_u32(g.level);
    let e7 = enc_u32(g.speed);
    let e8 = enc_u32(if g.game_over { 1u32 } else { 0u32 });
    assert(len == g.snake.body.len() as u32);
    lemma_enc_u32_len(dc);
    lemma_enc_u32_len(eat);
    lemma_enc_u32_len(len);
    lemma_enc_u32_len(score);
    lemma_enc_u32_len(level);
    lemma_enc_u32_len(speed);
    lemma_enc_u32_len(go);
    lemma_parts_concat(e0, e1, b, 0);
    lemma_parts_concat(e0 + e1, e2, b, 0);
    lemma_parts_concat(e0 + e1 + e2, eb, b, 0);
    lemma_parts_concat(e0 + e1 + e2 + eb, ef, b, 0);
    lemma_parts_concat(e0 + e1 + e2 + eb + ef, e5, b, 0);
    lemma_parts_concat(e0 + e1 + e2 + eb + ef + e5, e6, b, 0);
    lemma_parts_concat(e0 + e1 + e2 + eb + ef + e5 + e6, e7, b, 0);
    lemma_parts_concat(e0 + e1 + e2 + eb + ef + e5 + e6 + e7, e8, b, 0);
    assert(b.subrange(0, b.len() as int) =~= b);
}

/// A game state as one text document, laid out as `enc_state` describes.
pub fn encode_game_state(state: &GameState) -> (r: Vec<u8>)
    requires
        state.snake.body@.len() <= u32::MAX,
    ensures
        r@ == enc_state(state@),
{
    let mut out: Vec<u8> = Vec::new();
    let dir_c: u32 = match state.snake.direction {
        Direction::Up => 0,
        Direction::Down => 1,
        Direction::Left => 2,
        Direction::Right => 3,
    };
    push_u32(&mut out, dir_c);
    push_u32(&mut out, state.snake.eat);
    let len_u32: u32 = state.snake.body.len() as u32;
    push_u32(&mut out, len_u32);
    let ghost header = out@;
    proof {
        assert(out@ =~= header + enc_blocks(state.snake.body@.subrange(0, 0)));
    }
    let mut i: usize = 0;
    while i < state.snake.body.len()
        invariant
            i <= state.snake.body@.len(),
            out@ == header + enc_blocks(state.snake.body@.subrange(0, i as int)),
        decreases state.snake.body@.len() - i,
    {
        let cell = state.snake.body[i];
        push_u32(&mut out, cell.0);
        push_u32(&mut out, cell.1);
        proof {
            lemma_enc_blocks_snoc(state.snake.body@, i as int);
            assert(out@ =~= header + enc_blocks(state.snake.body@.subrange(0, i + 1)));
        }
        i = i + 1;
    }
    proof {
        assert(state.snake.body@.subrange(0, state.snake.body@.len() as int)
            =~= state.snake.body@);
    }
    match state.food {
        None => push_u32(&mut out, 0),
        Some(food) => {
            push_u32(&mut out, 1);
            let tc: u32 = match food.type_ {
                FoodType::Cherry => 0,
                FoodType::Banana => 1,
                FoodType::Apple => 2,
            };
            push_u32(&mut out, tc);
            push_u32(&mut out, food.position.0);
            push_u32(&mut out, food.position.1);
        },
    }
    push_u32(&mut out, state.score);
    push_u32(&mut out, state.level);
    push_u32(&mut out, state.speed);
    push_u32(
        &mut out,
        if state.game_over {
            1
        } else {
            0
        },
    );
    proof {
        assert(out@ =~= enc_state(state@));
    }
    out
}

/// Read a game state back from a document, exactly as `dec_state`
/// describes: the encoder's output yields the state that was written,
/// and any malformed document yields nothing.
#[verifier::loop_isolation(false)]
pub fn decode_game_state(b: &Vec<u8>) -> (r: Option<GameState>)
    ensures
        dec_state(b@) matches Some(g) ==> (r matches Some(st) && st@ == g),
        dec_state(b@) is None ==> r is None,
{
    let total = b.len();
    let dir_c = match parse_u32_at(b, 0) {
        None => { return None; },
        Some(v) => v,
    };
    let direction = if dir_c == 0 {
        Direction::Up
    } else if dir_c == 1 {
        Direction::Down
    } else if dir_c == 2 {
        Direction::Left
    } else if dir_c == 3 {
        Direction::Right
    } else {
        return None;
    };
    let eat = match parse_u32_at(b, 11) {
        None => { return None; },
        Some(v) => v,
    };
    let len = match parse_u32_at(b, 22) {
        None => { return None; },
        Some(v) => v,
    };
    let mut body: Vec<Block> = Vec::new();
    let mut pos: usize = 33;
    let mut i: u32 = 0;
    while i < len
        invariant
            i <= len,
            body@.len() == i,
            dec_blocks(b@, 33, len as int, Seq::empty()) == dec_blocks(
                b@,
                pos as int,
                len - i,
                body@,
            ),
        decreases len - i,
    {
        let x = match parse_u32_at(b, pos) {
            None => { return None; },
            Some(v) => v,
        };
        let y = match parse_u32_at(b, pos + 11) {
            None => { return None; },
            Some(v) => v,
        };
        body.push(Block(x, y));
        pos = pos + 22;
        i = i + 1;
    }
    let flag = match parse_u32_at(b, pos) {
        None => { return None; },
        Some(v) => v,
    };
    let food: Option<Food>;
    let pos2: usize;
    if flag == 0 {
        food = None;
        pos2 = pos + 11;
    } else if flag == 1 {
        let tc = match parse_u32_at(b, pos + 11) {
            None => { return None; },
            Some(v) => v,
        };
        let t = if tc == 0 {
            FoodType::Cherry
        } else if tc == 1 {
            FoodType::Banana
        } else if tc == 2 {
            FoodType::Apple
        } else {
            return None;
        };
        let x = match parse_u32_at(b, pos + 22) {
            None => { return None; },
            Some(v) => v,
        };
        let y = match parse_u32_at(b, pos + 33) {
            None => { return None; },
            Some(v) => v,
        };
        food = Some(Food { type_: t, position: Block(x, y) });
        pos2 = pos + 44;
    } else {
        return None;
    }
    let score = match parse_u32_at(b, pos2) {
        None => { return None; },
        Some(v) => v,
    };
    let level = match parse_u32_at(b, pos2 + 11) {
        None => { return None; },
        Some(v) => v,
    };
    let speed = match parse_u32_at(b, pos2 + 22) {
        None => { return None; },
        Some(v) => v,
    };
    let go = match parse_u32_at(b, pos2 + 33) {
        None => { return None; },
        Some(v) => v,
    };
    if go > 1 {
        return None;
    }
    if pos2 + 44 != total {
        return None;
    }
    Some(
        GameState {
            food,
            snake: Snake { body, direction, eat },
            score,
            level,
            speed,
            game_over: go == 1,
        },
    )
}

/// Relies on std::path::Path::exists: whether a save file is present on
/// disk. The answer depends on the file system, so nothing is promised
/// of it.
#[verifier::external_body]
pub fn savegame_exists() -> bool {
    std::path::Path::new("savegame.txt").exists()
}

} // verus!
