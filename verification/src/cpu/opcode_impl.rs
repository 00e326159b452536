//! The semantics of each decoded operation, one method per operation, each
//! with a contract that pins the state change down exactly. The two
//! historically divergent shift behaviors are a policy the engine is
//! constructed with.

use vstd::prelude::*;
use rand::Rng;
use super::Cpu;
use crate::cpu::{
    cpu_unchanged, only_pc_changed, only_pc_and_stack_changed, only_regs_changed,
    only_display_changed, only_display_and_regs_changed, only_index_changed,
    only_index_and_regs_changed, ExecError, FLAG_REGISTER, DISPLAY_WIDTH, DISPLAY_HEIGHT,
    NUM_KEYS,
};
use crate::memory::{Memory, FONT_INIT_ADDRESS, FONT_WIDTH, MEMORY_SIZE};

verus! {

/// The decimal digits of a byte value, most significant first: one digit
/// for 0 to 9, two for 10 to 99, three for 100 to 255.
pub open spec fn decimal_digits(v: u8) -> Seq<u8> {
    if v >= 100 {
        seq![(v / 100) as u8, ((v / 10) % 10) as u8, (v % 10) as u8]
    } else if v >= 10 {
        seq![(v / 10) as u8, (v % 10) as u8]
    } else {
        seq![v]
    }
}

/// Memory after a block store: registers 0 through `last` copied to
/// consecutive addresses starting at `index`; every other byte unchanged.
pub open spec fn stored_mem(m: Seq<u8>, index: int, regs: Seq<u8>, last: int) -> Seq<u8> {
    Seq::new(m.len(), |a: int| if index <= a <= index + last { regs[a - index] } else { m[a] })
}

/// Registers after a block load: registers 0 through `last` receive the
/// bytes at consecutive addresses starting at `index`; every other
/// register unchanged.
pub open spec fn loaded_regs(regs: Seq<u8>, m: Seq<u8>, index: int, last: int) -> Seq<u8> {
    Seq::new(regs.len(), |i: int| if 0 <= i <= last { m[index + i] } else { regs[i] })
}

/// Block store then block load through the same index register and
/// register range round-trips: the registers after the load equal the
/// registers before the store.
pub proof fn lemma_store_load_roundtrip(m: Seq<u8>, index: int, regs: Seq<u8>, last: int)
    requires
        regs.len() == 16,
        m.len() == MEMORY_SIZE,
        0 <= last < 16,
        0 <= index,
        index + last + 1 <= MEMORY_SIZE,
    ensures
        loaded_regs(regs, stored_mem(m, index, regs, last), index, last) == regs,
{
    assert(loaded_regs(regs, stored_mem(m, index, regs, last), index, last) =~= regs);
}

/// Bit `j` of a sprite row byte, most significant bit first (`j` = 0 is the
/// leftmost pixel of the row).
pub open spec fn sprite_bit(row: u8, j: int) -> bool
    recommends
        0 <= j < 8,
{
    (row >> ((7 - j) as u8)) & 1 == 1
}

/// A cell is toggled: a lit cell goes clear, a clear cell goes lit.
pub open spec fn toggled(v: u8) -> u8 {
    if v > 0 { 0u8 } else { 1u8 }
}

/// Whether drawing a sprite of `n` rows anchored at (`x0`, `y0`) covers the
/// cell at row `y`, column `x`. Drawing clips at the right and bottom edges
/// of the grid: cells past them are not covered.
pub open spec fn cell_covered(x0: int, y0: int, n: int, y: int, x: int) -> bool {
    &&& y0 <= y < y0 + n
    &&& y < DISPLAY_HEIGHT
    &&& x0 <= x < x0 + 8
    &&& x < DISPLAY_WIDTH
}

/// The value of the cell at row `y`, column `x` after the sprite is drawn
/// on the grid `d`: covered cells under a set sprite bit are toggled, all
/// others keep their value.
pub open spec fn drawn_cell(d: Seq<Seq<u8>>, x0: int, y0: int, sprite: Seq<u8>, y: int, x: int) -> u8 {
    if cell_covered(x0, y0, sprite.len() as int, y, x) && sprite_bit(sprite[y - y0], x - x0) {
        toggled(d[y][x])
    } else {
        d[y][x]
    }
}

/// The whole display grid after the sprite is drawn on `d`.
pub open spec fn draw_grid(d: Seq<Seq<u8>>, x0: int, y0: int, sprite: Seq<u8>) -> Seq<Seq<u8>> {
    Seq::new(
        DISPLAY_HEIGHT as nat,
        |y: int| Seq::new(DISPLAY_WIDTH as nat, |x: int| drawn_cell(d, x0, y0, sprite, y, x)),
    )
}

/// Whether the draw toggles some previously lit cell to clear: the
/// condition under which the whole draw call reports a collision.
pub open spec fn draw_collision(d: Seq<Seq<u8>>, x0: int, y0: int, sprite: Seq<u8>) -> bool {
    exists|y: int, x: int|
        #[trigger] cell_covered(x0, y0, sprite.len() as int, y, x)
            && sprite_bit(sprite[y - y0], x - x0) && d[y][x] > 0
}

/// Splits the collision condition of the first `i + 1` sprite rows into
/// that of the first `i` rows and that of row `i` alone.
proof fn lemma_collision_split(d: Seq<Seq<u8>>, x0: int, y0: int, sprite: Seq<u8>, i: int)
    requires
        0 <= i < sprite.len(),
        y0 + i < DISPLAY_HEIGHT,
    ensures
        draw_collision(d, x0, y0, sprite.take(i + 1)) <==> (draw_collision(d, x0, y0, sprite.take(i))
            || exists|x: int|
                x0 <= x < x0 + 8 && x < DISPLAY_WIDTH
                    && #[trigger] sprite_bit(sprite[i], x - x0) && d[y0 + i][x] > 0),
{
    let s1 = sprite.take(i + 1);
    let s0 = sprite.take(i);
    assert(s1.len() == i + 1);
    assert(s0.len() == i);
    if draw_collision(d, x0, y0, s1) {
        let (y, x) = choose|y: int, x: int|
            #[trigger] cell_covered(x0, y0, s1.len() as int, y, x)
                && sprite_bit(s1[y - y0], x - x0) && d[y][x] > 0;
        if y < y0 + i {
            assert(s0[y - y0] == s1[y - y0]);
            assert(cell_covered(x0, y0, s0.len() as int, y, x)
                && sprite_bit(s0[y - y0], x - x0) && d[y][x] > 0);
            assert(draw_collision(d, x0, y0, s0));
        } else {
            assert(s1[i] == sprite[i]);
            assert(sprite_bit(sprite[i], x - x0) && d[y0 + i][x] > 0);
        }
    }
    if draw_collision(d, x0, y0, s0) {
        let (y, x) = choose|y: int, x: int|
            #[trigger] cell_covered(x0, y0, s0.len() as int, y, x)
                && sprite_bit(s0[y - y0], x - x0) && d[y][x] > 0;
        assert(s1[y - y0] == s0[y - y0]);
        assert(cell_covered(x0, y0, s1.len() as int, y, x)
            && sprite_bit(s1[y - y0], x - x0) && d[y][x] > 0);
        assert(draw_collision(d, x0, y0, s1));
    }
    if exists|x: int|
        x0 <= x < x0 + 8 && x < DISPLAY_WIDTH && #[trigger] sprite_bit(sprite[i], x - x0)
            && d[y0 + i][x] > 0 {
        let x = choose|x: int|
            x0 <= x < x0 + 8 && x < DISPLAY_WIDTH && #[trigger] sprite_bit(sprite[i], x - x0)
                && d[y0 + i][x] > 0;
        assert(s1[i] == sprite[i]);
        assert(cell_covered(x0, y0, s1.len() as int, y0 + i, x)
            && sprite_bit(s1[(y0 + i) - y0], x - x0) && d[y0 + i][x] > 0);
        assert(draw_collision(d, x0, y0, s1));
    }
}

/// Once the bottom edge is crossed, the remaining sprite rows change
/// nothing: drawing the first `i` rows draws the whole sprite.
proof fn lemma_draw_clip(d: Seq<Seq<u8>>, x0: int, y0: int, sprite: Seq<u8>, i: int)
    requires
        0 <= i <= sprite.len(),
        y0 + i >= DISPLAY_HEIGHT,
    ensures
        forall|y: int, x: int|
            0 <= y < DISPLAY_HEIGHT && 0 <= x < DISPLAY_WIDTH
                ==> #[trigger] drawn_cell(d, x0, y0, sprite.take(i), y, x)
                    == drawn_cell(d, x0, y0, sprite, y, x),
        draw_collision(d, x0, y0, sprite.take(i)) <==> draw_collision(d, x0, y0, sprite),
{
    let s0 = sprite.take(i);
    assert(s0.len() == i);
    if draw_collision(d, x0, y0, s0) {
        let (y, x) = choose|y: int, x: int|
            #[trigger] cell_covered(x0, y0, s0.len() as int, y, x)
                && sprite_bit(s0[y - y0], x - x0) && d[y][x] > 0;
        assert(s0[y - y0] == sprite[y - y0]);
        assert(cell_covered(x0, y0, sprite.len() as int, y, x)
            && sprite_bit(sprite[y - y0], x - x0) && d[y][x] > 0);
        assert(draw_collision(d, x0, y0, sprite));
    }
    if draw_collision(d, x0, y0, sprite) {
        let (y, x) = choose|y: int, x: int|
            #[trigger] cell_covered(x0, y0, sprite.len() as int, y, x)
                && sprite_bit(sprite[y - y0], x - x0) && d[y][x] > 0;
        assert(s0[y - y0] == sprite[y - y0]);
        assert(cell_covered(x0, y0, s0.len() as int, y, x)
            && sprite_bit(s0[y - y0], x - x0) && d[y][x] > 0);
        assert(draw_collision(d, x0, y0, s0));
    }
}

/// Drawing the identical sprite at the identical anchor twice in
/// succession returns every cell to its state before the first draw, and
/// the second draw reports a collision exactly when the first draw set
/// (turned on) any covered cell under a set sprite bit.
pub proof fn lemma_draw_twice_restores(d: Seq<Seq<u8>>, x0: int, y0: int, sprite: Seq<u8>)
    requires
        0 <= x0,
        0 <= y0,
        d.len() == DISPLAY_HEIGHT,
        forall|y: int| 0 <= y < DISPLAY_HEIGHT ==> (#[trigger] d[y]).len() == DISPLAY_WIDTH,
        forall|y: int, x: int|
            0 <= y < DISPLAY_HEIGHT && 0 <= x < DISPLAY_WIDTH ==> #[trigger] d[y][x] <= 1,
    ensures
        draw_grid(draw_grid(d, x0, y0, sprite), x0, y0, sprite) == d,
        draw_collision(draw_grid(d, x0, y0, sprite), x0, y0, sprite)
            <==> (exists|y: int, x: int|
                #[trigger] cell_covered(x0, y0, sprite.len() as int, y, x)
                    && sprite_bit(sprite[y - y0], x - x0) && d[y][x] == 0),
{
    let d1 = draw_grid(d, x0, y0, sprite);
    assert forall|y: int, x: int|
        0 <= y < DISPLAY_HEIGHT && 0 <= x < DISPLAY_WIDTH
            implies #[trigger] d1[y][x] == drawn_cell(d, x0, y0, sprite, y, x) by {}
    assert(draw_grid(d1, x0, y0, sprite) =~~= d);
    if draw_collision(d1, x0, y0, sprite) {
        let (y, x) = choose|y: int, x: int|
            #[trigger] cell_covered(x0, y0, sprite.len() as int, y, x)
                && sprite_bit(sprite[y - y0], x - x0) && d1[y][x] > 0;
        assert(d1[y][x] == toggled(d[y][x]));
        assert(d[y][x] == 0);
    }
    if exists|y: int, x: int|
        #[trigger] cell_covered(x0, y0, sprite.len() as int, y, x)
            && sprite_bit(sprite[y - y0], x - x0) && d[y][x] == 0 {
        let (y, x) = choose|y: int, x: int|
            #[trigger] cell_covered(x0, y0, sprite.len() as int, y, x)
                && sprite_bit(sprite[y - y0], x - x0) && d[y][x] == 0;
        assert(d1[y][x] == toggled(d[y][x]));
        assert(d1[y][x] > 0);
        assert(draw_collision(d1, x0, y0, sprite));
    }
}

/// What the sprite draw operation does: with the sprite rows read from
/// memory at the index register, the anchor point wrapped modulo the grid
/// dimensions, covered cells under set sprite bits toggled, and the flag
/// register reporting whether any lit cell was toggled clear. A sprite
/// whose declared rows would run past the end of memory is the fatal
/// out-of-bounds error, with the state unchanged.
pub open spec fn display_rel<B: ShiftBehavior>(
    pre: Cpu<B>,
    m: Memory,
    reg_idx_x: u8,
    reg_idx_y: u8,
    n_pixels: u8,
    post: Cpu<B>,
    r: Result<(), ExecError>,
) -> bool {
    if pre.index_reg + n_pixels > MEMORY_SIZE {
        &&& r == Err::<(), ExecError>(ExecError::MemoryOutOfBounds)
        &&& cpu_unchanged(pre, post)
    } else {
        let x0 = (pre.var_regs[reg_idx_x as int] as int) % (DISPLAY_WIDTH as int);
        let y0 = (pre.var_regs[reg_idx_y as int] as int) % (DISPLAY_HEIGHT as int);
        let sprite = m.data@.subrange(pre.index_reg as int, pre.index_reg + n_pixels);
        &&& r == Ok::<(), ExecError>(())
        &&& only_display_and_regs_changed(pre, post)
        &&& post.disp() == draw_grid(pre.disp(), x0, y0, sprite)
        &&& post.var_regs@ == pre.var_regs@.update(
            FLAG_REGISTER as int,
            if draw_collision(pre.disp(), x0, y0, sprite) { 1u8 } else { 0u8 },
        )
    }
}

/// Key `k` went from pressed in the previous snapshot to released in the
/// current one.
pub open spec fn spec_key_released(curr: [u8; NUM_KEYS], prev: [u8; NUM_KEYS], k: int) -> bool {
    prev[k] > 0 && curr[k] == 0
}

/// The smallest key index at or after `k` that transitioned from pressed
/// to released, or 16 when none did.
pub open spec fn spec_first_released_key(curr: [u8; NUM_KEYS], prev: [u8; NUM_KEYS], k: int) -> int
    decreases 16 - k,
{
    if k < 0 || k >= 16 {
        16
    } else if spec_key_released(curr, prev, k) {
        k
    } else {
        spec_first_released_key(curr, prev, k + 1)
    }
}

/// The policy for the two shift operations, whose source register differs
/// across historical interpreters: `spec_shift_source` picks, out of the
/// destination register's value `x` and the second operand register's value
/// `y`, the value that gets shifted.
pub trait ShiftBehavior: Sized {
    /// The value the shift operates on, given the destination register's
    /// value `x` and the second operand register's value `y`.
    spec fn spec_shift_source(x: u8, y: u8) -> u8;

    /// Executable choice of the shift source; it must implement the
    /// declared policy.
    fn shift_source(&self, x: u8, y: u8) -> (r: u8)
        ensures
            r == Self::spec_shift_source(x, y),
    ;
}

/// The legacy policy: shift the destination register in place, ignoring the
/// second operand register.
pub struct OldShiftBehavior;

impl ShiftBehavior for OldShiftBehavior {
    open spec fn spec_shift_source(x: u8, y: u8) -> u8 {
        x
    }

    fn shift_source(&self, x: u8, y: u8) -> (r: u8) {
        x
    }
}

/// The modern policy: copy the second operand register's value into the
/// destination, then shift.
pub struct NewShiftBehavior;

impl ShiftBehavior for NewShiftBehavior {
    open spec fn spec_shift_source(x: u8, y: u8) -> u8 {
        y
    }

    fn shift_source(&self, x: u8, y: u8) -> (r: u8) {
        y
    }
}

impl<B: ShiftBehavior> Cpu<B> {
    /// Clear: every display cell is zero afterward, regardless of prior
    /// content.
    pub(crate) fn opcode_clear(&mut self)
        ensures
            only_display_changed(*old(self), *final(self)),
            forall|y: int, x: int|
                0 <= y < DISPLAY_HEIGHT && 0 <= x < DISPLAY_WIDTH
                    ==> #[trigger] final(self).display[y][x] == 0,
    {
        self.display = [[0; DISPLAY_WIDTH]; DISPLAY_HEIGHT];
    }

    /// Jump: the program counter moves to `address`.
    pub(crate) fn opcode_jump(&mut self, address: usize)
        requires
            address <= 0xFFFF,
        ensures
            only_pc_changed(*old(self), *final(self)),
            final(self).pc == address,
    {
        self.pc = address;
    }

    /// Subroutine call: pushes the post-increment program counter as the
    /// return address, then jumps.
    pub(crate) fn opcode_subroutine_call(&mut self, address: usize)
        requires
            address <= 0xFFFF,
            old(self).pc <= 0xFFFF,
        ensures
            only_pc_and_stack_changed(*old(self), *final(self)),
            final(self).stack.vector@ == old(self).stack.vector@.push(old(self).pc as u16),
            final(self).pc == address,
    {
        self.stack.push(self.pc as u16);
        self.opcode_jump(address);
    }

    /// Subroutine return: pops the most recent return address and jumps
    /// there; on an empty stack no valid return address exists and the
    /// fatal underflow error is reported with the state unchanged.
    pub(crate) fn opcode_subroutine_return(&mut self) -> (r: Result<(), ExecError>)
        ensures
            old(self).stack.vector@.len() == 0 ==> {
                &&& r == Err::<(), ExecError>(ExecError::StackUnderflow)
                &&& cpu_unchanged(*old(self), *final(self))
            },
            old(self).stack.vector@.len() > 0 ==> {
                &&& r == Ok::<(), ExecError>(())
                &&& only_pc_and_stack_changed(*old(self), *final(self))
                &&& final(self).pc == old(self).stack.vector@.last() as usize
                &&& final(self).stack.vector@ == old(self).stack.vector@.drop_last()
            },
    {
        if let Some(address) = self.stack.pop() {
            self.pc = address as usize;
            Ok(())
        } else {
            Err(ExecError::StackUnderflow)
        }
    }

    /// Set register: register `reg_idx` receives `value`.
    pub(crate) fn opcode_set_value_to_register(&mut self, reg_idx: u8, value: u8)
        requires
            reg_idx < 16,
        ensures
            only_regs_changed(*old(self), *final(self)),
            final(self).var_regs@ == old(self).var_regs@.update(reg_idx as int, value),
    {
        self.var_regs[reg_idx as usize] = value;
    }

    /// Add literal to register: the sum wraps modulo 256 and sets no flag.
    pub(crate) fn opcode_add_value_to_register(&mut self, reg_idx: u8, value: u8)
        requires
            reg_idx < 16,
        ensures
            only_regs_changed(*old(self), *final(self)),
            final(self).var_regs@ == old(self).var_regs@.update(
                reg_idx as int,
                ((old(self).var_regs[reg_idx as int] + value) % 256) as u8,
            ),
    {
        self.var_regs[reg_idx as usize] = self.var_regs[reg_idx as usize].wrapping_add(value);
    }

    /// Add registers: the flag register is 1 iff the unsigned sum exceeds
    /// 255, and the destination receives the sum modulo 256 (written after
    /// the flag, so the sum wins when the destination is the flag register).
    pub(crate) fn opcode_add_registers(&mut self, reg_idx_x: u8, reg_idx_y: u8)
        requires
            reg_idx_x < 16,
            reg_idx_y < 16,
        ensures
            only_regs_changed(*old(self), *final(self)),
            final(self).var_regs@ == old(self).var_regs@
                .update(
                    FLAG_REGISTER as int,
                    if old(self).var_regs[reg_idx_x as int] + old(self).var_regs[reg_idx_y as int]
                        > 255 { 1u8 } else { 0u8 },
                )
                .update(
                    reg_idx_x as int,
                    ((old(self).var_regs[reg_idx_x as int] + old(self).var_regs[reg_idx_y as int])
                        % 256) as u8,
                ),
    {
        let x = self.var_regs[reg_idx_x as usize];
        let y = self.var_regs[reg_idx_y as usize];
        let result = x.wrapping_add(y);
        let overflowed: bool = x as u16 + y as u16 > 255;
        self.set_flag_register(if overflowed { 1 } else { 0 });
        self.var_regs[reg_idx_x as usize] = result;
    }

    /// Subtract registers: destination receives operand A minus operand B
    /// modulo 256; the flag register reports "no borrow", 1 when A >= B and
    /// 0 when A < B (written before the result, so the result wins when the
    /// destination is the flag register).
    pub(crate) fn opcode_subtract_registers(&mut self, dest_reg_idx: u8, reg_idx_x: u8, reg_idx_y: u8)
        requires
            dest_reg_idx < 16,
            reg_idx_x < 16,
            reg_idx_y < 16,
        ensures
            only_regs_changed(*old(self), *final(self)),
            final(self).var_regs@ == old(self).var_regs@
                .update(
                    FLAG_REGISTER as int,
                    if old(self).var_regs[reg_idx_x as int] >= old(self).var_regs[reg_idx_y as int]
                        { 1u8 } else { 0u8 },
                )
                .update(
                    dest_reg_idx as int,
                    ((old(self).var_regs[reg_idx_x as int] - old(self).var_regs[reg_idx_y as int])
                        % 256) as u8,
                ),
    {
        let x = self.var_regs[reg_idx_x as usize];
        let y = self.var_regs[reg_idx_y as usize];
        let result = x.wrapping_sub(y);
        let no_borrow: bool = x >= y;
        self.set_flag_register(if no_borrow { 1 } else { 0 });
        self.var_regs[dest_reg_idx as usize] = result;
    }

    /// Shift left: the policy-selected source value is shifted left one
    /// bit into the destination register, and the flag register receives
    /// the bit shifted out (bit 7).
    pub(crate) fn opcode_shift_left_register(&mut self, reg_idx_x: u8, reg_idx_y: u8)
        requires
            reg_idx_x < 16,
            reg_idx_y < 16,
        ensures
            only_regs_changed(*old(self), *final(self)),
            final(self).var_regs@ == ({
                let src = B::spec_shift_source(
                    old(self).var_regs[reg_idx_x as int],
                    old(self).var_regs[reg_idx_y as int],
                );
                old(self).var_regs@
                    .update(FLAG_REGISTER as int, if src & 0x80 != 0 { 1u8 } else { 0u8 })
                    .update(reg_idx_x as int, src << 1)
            }),
    {
        let src = self.shift_logic.shift_source(
            self.var_regs[reg_idx_x as usize],
            self.var_regs[reg_idx_y as usize],
        );
        self.set_flag_register(if src & 0x80 != 0 { 1 } else { 0 });
        self.var_regs[reg_idx_x as usize] = src << 1;
    }

    /// Shift right: the policy-selected source value is shifted right one
    /// bit into the destination register, and the flag register receives
    /// the bit shifted out (bit 0).
    pub(crate) fn opcode_shift_right_register(&mut self, reg_idx_x: u8, reg_idx_y: u8)
        requires
            reg_idx_x < 16,
            reg_idx_y < 16,
        ensures
            only_regs_changed(*old(self), *final(self)),
            final(self).var_regs@ == ({
                let src = B::spec_shift_source(
                    old(self).var_regs[reg_idx_x as int],
                    old(self).var_regs[reg_idx_y as int],
                );
                old(self).var_regs@
                    .update(FLAG_REGISTER as int, src & 0x1)
                    .update(reg_idx_x as int, src >> 1)
            }),
    {
        let src = self.shift_logic.shift_source(
            self.var_regs[reg_idx_x as usize],
            self.var_regs[reg_idx_y as usize],
        );
        self.set_flag_register(src & 0x1);
        self.var_regs[reg_idx_x as usize] = src >> 1;
    }
    /// Set index register: the index register receives `value`.
    pub(crate) fn opcode_set_index_register(&mut self, value: usize)
        requires
            value <= 0xFFFF,
        ensures
            only_index_changed(*old(self), *final(self)),
            final(self).index_reg == value,
    {
        self.index_reg = value;
    }

    /// Add to index register: the sum wraps at 16 bits; when it exceeds the
    /// addressable space the flag register is set to 1 (and is otherwise
    /// left alone). Flagging index overflow is itself a historically
    /// debated behavior, kept here as the chosen policy.
    pub(crate) fn opcode_add_index_register(&mut self, reg_idx: u8)
        requires
            reg_idx < 16,
            old(self).index_reg <= 0xFFFF,
        ensures
            only_index_and_regs_changed(*old(self), *final(self)),
            final(self).index_reg
                == (old(self).index_reg + old(self).var_regs[reg_idx as int]) % 0x10000,
            final(self).var_regs@ == if old(self).index_reg
                + old(self).var_regs[reg_idx as int] > 0x1000 {
                old(self).var_regs@.update(FLAG_REGISTER as int, 1u8)
            } else {
                old(self).var_regs@
            },
    {
        let offset: usize = self.var_regs[reg_idx as usize] as usize;
        let sum = self.index_reg + offset;
        if sum > 0x1000 {
            self.set_flag_register(1);
        }
        self.index_reg = sum % 0x10000;
    }

    /// Jump with offset: the target is the address plus register 0's value.
    /// The historically ambiguous alternative (offset register selected by
    /// an instruction nibble) is not the policy here: register 0 is fixed.
    pub(crate) fn opcode_jump_with_offset(&mut self, address: usize)
        requires
            address <= 0xFFF,
        ensures
            only_pc_changed(*old(self), *final(self)),
            final(self).pc == address + old(self).var_regs[0],
    {
        self.pc = address + self.var_regs[0] as usize;
    }

    /// Random: draws a uniformly random byte, masks it with the
    /// instruction's mask operand and stores it in the register. The
    /// contract promises only that some byte was drawn.
    pub(crate) fn opcode_random(&mut self, reg_idx: u8, mask: u8)
        requires
            reg_idx < 16,
        ensures
            only_regs_changed(*old(self), *final(self)),
            exists|b: u8| final(self).var_regs@
                == old(self).var_regs@.update(reg_idx as int, #[trigger] (b & mask)),
    {
        let b = random_byte();
        self.var_regs[reg_idx as usize] = b & mask;
        proof {
            assert(self.var_regs@ == old(self).var_regs@.update(reg_idx as int, b & mask));
        }
    }

    /// Font character: the index register receives the address of the
    /// glyph for the low four bits of the register's value.
    pub(crate) fn opcode_set_index_register_to_font(&mut self, memory: &Memory, reg_idx: u8)
        requires
            reg_idx < 16,
        ensures
            only_index_changed(*old(self), *final(self)),
            final(self).index_reg
                == FONT_INIT_ADDRESS + FONT_WIDTH * (old(self).var_regs[reg_idx as int] & 0x0F),
            final(self).index_reg <= 0xFFFF,
    {
        let digit = self.var_regs[reg_idx as usize] & 0x0F;
        proof {
            let v = self.var_regs[reg_idx as int];
            assert(v & 0x0F <= 0xF) by (bit_vector);
        }
        self.index_reg = memory.get_font_address(digit);
    }

    /// Skip if key pressed: when the key indexed by the low four bits of
    /// the register's value is pressed in the current snapshot, the next
    /// instruction word is skipped.
    pub(crate) fn opcode_skip_if_key_pressed(&mut self, reg_idx: u8)
        requires
            reg_idx < 16,
            old(self).pc + 2 <= 0xFFFF,
        ensures
            only_pc_changed(*old(self), *final(self)),
            final(self).pc == if old(self).input_state[
                (old(self).var_regs[reg_idx as int] & 0xF) as int
            ] > 0 { old(self).pc + 2 } else { old(self).pc as int },
    {
        let key = self.var_regs[reg_idx as usize] & 0xF;
        proof {
            let v = self.var_regs[reg_idx as int];
            assert(v & 0xF <= 0xF) by (bit_vector);
        }
        if self.input_state[key as usize] > 0 {
            self.next_opcode();
        }
    }

    /// Skip if key not pressed: the complement of `opcode_skip_if_key_pressed`.
    pub(crate) fn opcode_skip_if_key_not_pressed(&mut self, reg_idx: u8)
        requires
            reg_idx < 16,
            old(self).pc + 2 <= 0xFFFF,
        ensures
            only_pc_changed(*old(self), *final(self)),
            final(self).pc == if old(self).input_state[
                (old(self).var_regs[reg_idx as int] & 0xF) as int
            ] == 0 { old(self).pc + 2 } else { old(self).pc as int },
    {
        let key = self.var_regs[reg_idx as usize] & 0xF;
        proof {
            let v = self.var_regs[reg_idx as int];
            assert(v & 0xF <= 0xF) by (bit_vector);
        }
        if self.input_state[key as usize] == 0 {
            self.next_opcode();
        }
    }

    /// Blocking key wait: when some key transitioned from pressed to
    /// released between the previous and the current snapshot, the lowest
    /// such key index lands in the register and execution proceeds;
    /// otherwise the program counter is rewound one instruction word, so
    /// the same wait is re-presented next tick.
    pub(crate) fn opcode_get_key(&mut self, reg_idx: u8)
        requires
            reg_idx < 16,
            old(self).pc >= 2,
        ensures
            ({
                let first = spec_first_released_key(
                    old(self).input_state,
                    old(self).last_input_state,
                    0,
                );
                if first < 16 {
                    &&& only_regs_changed(*old(self), *final(self))
                    &&& final(self).var_regs@
                        == old(self).var_regs@.update(reg_idx as int, first as u8)
                } else {
                    &&& only_pc_changed(*old(self), *final(self))
                    &&& final(self).pc == old(self).pc - 2
                }
            }),
    {
        let mut k: usize = 0;
        while k < 16
            invariant
                old(self).pc >= 2,
                reg_idx < 16,
                k <= 16,
                *self == *old(self),
                spec_first_released_key(self.input_state, self.last_input_state, 0)
                    == spec_first_released_key(self.input_state, self.last_input_state, k as int),
            decreases 16 - k,
        {
            if self.last_input_state[k] > 0 && self.input_state[k] == 0 {
                self.var_regs[reg_idx as usize] = k as u8;
                return;
            }
            k += 1;
        }
        self.prev_opcode();
    }

    /// Draws the eight bits of one sprite row, most significant bit first,
    /// onto display row `y` starting at column `x0`, clipping at the right
    /// edge; reports whether some lit cell was toggled clear.
    fn draw_sprite_row(&mut self, row: u8, x0: usize, y: usize) -> (collided: bool)
        requires
            x0 < DISPLAY_WIDTH,
            y < DISPLAY_HEIGHT,
        ensures
            only_display_changed(*old(self), *final(self)),
            forall|yy: int, xx: int|
                0 <= yy < DISPLAY_HEIGHT && 0 <= xx < DISPLAY_WIDTH && yy != y
                    ==> #[trigger] final(self).display[yy][xx] == old(self).display[yy][xx],
            forall|xx: int|
                0 <= xx < DISPLAY_WIDTH
                    ==> #[trigger] final(self).display[y as int][xx] == (
                        if x0 <= xx < x0 + 8 && sprite_bit(row, xx - x0) {
                            toggled(old(self).display[y as int][xx])
                        } else {
                            old(self).display[y as int][xx]
                        }),
            collided == exists|xx: int|
                x0 <= xx < x0 + 8 && xx < DISPLAY_WIDTH && #[trigger] sprite_bit(row, xx - x0)
                    && old(self).display[y as int][xx] > 0,
    {
        let mut collided = false;
        let mut j: usize = 0;
        while j < 8 && x0 + j < DISPLAY_WIDTH
            invariant
                x0 < DISPLAY_WIDTH,
                y < DISPLAY_HEIGHT,
                j <= 8,
                x0 + j <= DISPLAY_WIDTH,
                only_display_changed(*old(self), *self),
                forall|yy: int, xx: int|
                    0 <= yy < DISPLAY_HEIGHT && 0 <= xx < DISPLAY_WIDTH && yy != y
                        ==> #[trigger] self.display[yy][xx] == old(self).display[yy][xx],
                forall|xx: int|
                    0 <= xx < DISPLAY_WIDTH
                        ==> #[trigger] self.display[y as int][xx] == (
                            if x0 <= xx < x0 + j && sprite_bit(row, xx - x0) {
                                toggled(old(self).display[y as int][xx])
                            } else {
                                old(self).display[y as int][xx]
                            }),
                collided == exists|xx: int|
                    x0 <= xx < x0 + j && xx < DISPLAY_WIDTH && #[trigger] sprite_bit(row, xx - x0)
                        && old(self).display[y as int][xx] > 0,
            decreases 8 - j,
        {
            let x = x0 + j;
            let bit_on = (row >> ((7 - j) as u8)) & 1 == 1;
            proof {
                assert(bit_on == sprite_bit(row, j as int));
            }
            if bit_on {
                if self.display[y][x] > 0 {
                    self.display[y][x] = 0;
                    collided = true;
                    proof {
                        assert(sprite_bit(row, x - x0)
                            && old(self).display[y as int][x as int] > 0);
                    }
                } else {
                    self.display[y][x] = 1;
                }
            }
            j += 1;
        }
        collided
    }

    /// Sprite draw: the anchor point comes from the two registers, wrapped
    /// modulo the grid dimensions; each of the `n_pixels` sprite rows is
    /// read from memory at the index register and XOR-composited onto the
    /// grid, most significant bit leftmost; drawing clips (does not wrap)
    /// at the right and bottom edges. The flag register is 0 after the
    /// draw unless some lit cell was toggled clear, in which case it is 1.
    pub(crate) fn opcode_display(&mut self, memory: &Memory, reg_idx_x: u8, reg_idx_y: u8, n_pixels: u8)
        -> (r: Result<(), ExecError>)
        requires
            reg_idx_x < 16,
            reg_idx_y < 16,
            n_pixels <= 15,
            old(self).wf(),
        ensures
            final(self).wf(),
            display_rel(*old(self), *memory, reg_idx_x, reg_idx_y, n_pixels, *final(self), r),
    {
        let n = n_pixels as usize;
        if self.index_reg + n > MEMORY_SIZE {
            return Err(ExecError::MemoryOutOfBounds);
        }
        let x0 = (self.var_regs[reg_idx_x as usize] as usize) % DISPLAY_WIDTH;
        let y0 = (self.var_regs[reg_idx_y as usize] as usize) % DISPLAY_HEIGHT;
        self.set_flag_register(0);
        let ghost dpre = old(self).disp();
        let ghost sprite = memory.data@.subrange(
            old(self).index_reg as int,
            old(self).index_reg + n_pixels,
        );
        let mut i: usize = 0;
        while i < n && y0 + i < DISPLAY_HEIGHT
            invariant
                n == n_pixels,
                n <= 15,
                reg_idx_x < 16,
                reg_idx_y < 16,
                x0 == (old(self).var_regs[reg_idx_x as int] as int) % (DISPLAY_WIDTH as int),
                y0 == (old(self).var_regs[reg_idx_y as int] as int) % (DISPLAY_HEIGHT as int),
                x0 < DISPLAY_WIDTH,
                y0 < DISPLAY_HEIGHT,
                i <= n,
                old(self).wf(),
                self.index_reg == old(self).index_reg,
                self.index_reg + n <= MEMORY_SIZE,
                sprite == memory.data@.subrange(
                    old(self).index_reg as int,
                    old(self).index_reg + n_pixels,
                ),
                sprite.len() == n,
                dpre == old(self).disp(),
                only_display_and_regs_changed(*old(self), *self),
                forall|yy: int, xx: int|
                    0 <= yy < DISPLAY_HEIGHT && 0 <= xx < DISPLAY_WIDTH
                        ==> #[trigger] self.display[yy][xx]
                            == drawn_cell(dpre, x0 as int, y0 as int, sprite.take(i as int), yy, xx),
                self.var_regs@ == old(self).var_regs@.update(
                    FLAG_REGISTER as int,
                    if draw_collision(dpre, x0 as int, y0 as int, sprite.take(i as int)) {
                        1u8
                    } else {
                        0u8
                    },
                ),
            decreases n - i,
        {
            let row = memory.read_byte(self.index_reg + i);
            proof {
                assert(row == sprite[i as int]);
                assert(forall|yy: int, xx: int|
                    0 <= yy < DISPLAY_HEIGHT && 0 <= xx < DISPLAY_WIDTH
                        ==> dpre[yy][xx] == #[trigger] old(self).display[yy][xx]);
            }
            let ghost display_before = *self;
            let collided = self.draw_sprite_row(row, x0, y0 + i);
            proof {
                lemma_collision_split(dpre, x0 as int, y0 as int, sprite, i as int);
                assert(sprite.take(i as int + 1)[i as int] == sprite[i as int]);
                assert forall|k: int| 0 <= k < i
                    implies #[trigger] sprite.take(i as int + 1)[k] == sprite.take(i as int)[k] by {}
                let yrow = y0 + i;
                assert forall|yy: int, xx: int|
                    0 <= yy < DISPLAY_HEIGHT && 0 <= xx < DISPLAY_WIDTH
                        implies #[trigger] self.display[yy][xx]
                            == drawn_cell(dpre, x0 as int, y0 as int, sprite.take(i + 1), yy, xx) by {
                    if yy != yrow {
                        assert(self.display[yy][xx] == display_before.display[yy][xx]);
                    } else {
                        assert(display_before.display[yy][xx]
                            == drawn_cell(dpre, x0 as int, y0 as int, sprite.take(i as int), yy, xx));
                        assert(display_before.display[yy][xx] == dpre[yy][xx]);
                    }
                }
                // The row's collision report, phrased over the pre-draw grid.
                assert(collided == exists|xx: int|
                    x0 <= xx < x0 + 8 && xx < DISPLAY_WIDTH && #[trigger] sprite_bit(row, xx - x0)
                        && dpre[yrow as int][xx] > 0) by {
                    assert(forall|xx: int| 0 <= xx < DISPLAY_WIDTH
                        ==> #[trigger] display_before.display[yrow as int][xx]
                            == dpre[yrow as int][xx]);
                    if collided {
                        let xx = choose|xx: int|
                            x0 <= xx < x0 + 8 && xx < DISPLAY_WIDTH
                                && #[trigger] sprite_bit(row, xx - x0)
                                && display_before.display[yrow as int][xx] > 0;
                        assert(x0 <= xx < x0 + 8 && xx < DISPLAY_WIDTH
                            && sprite_bit(row, xx - x0) && dpre[yrow as int][xx] > 0);
                    }
                    if exists|xx: int|
                        x0 <= xx < x0 + 8 && xx < DISPLAY_WIDTH
                            && #[trigger] sprite_bit(row, xx - x0) && dpre[yrow as int][xx] > 0 {
                        let xx = choose|xx: int|
                            x0 <= xx < x0 + 8 && xx < DISPLAY_WIDTH
                                && #[trigger] sprite_bit(row, xx - x0)
                                && dpre[yrow as int][xx] > 0;
                        assert(x0 <= xx < x0 + 8 && xx < DISPLAY_WIDTH
                            && sprite_bit(row, xx - x0)
                            && display_before.display[yrow as int][xx] > 0);
                    }
                }
            }
            if collided {
                self.set_flag_register(1);
                proof {
                    assert(self.var_regs@ =~= old(self).var_regs@.update(FLAG_REGISTER as int, 1u8));
                }
            }
            i += 1;
        }
        proof {
            if i < n {
                // Clipped at the bottom edge: the remaining rows draw nothing.
                lemma_draw_clip(dpre, x0 as int, y0 as int, sprite, i as int);
            }
            assert(sprite.take(n as int) == sprite);
            assert(self.disp() =~~= draw_grid(dpre, x0 as int, y0 as int, sprite));
            assert forall|yy: int, xx: int|
                0 <= yy < DISPLAY_HEIGHT && 0 <= xx < DISPLAY_WIDTH
                    implies #[trigger] self.display[yy][xx] <= 1 by {
                assert(dpre[yy][xx] == old(self).display[yy][xx]);
            }
        }
        Ok(())
    }

    /// Binary-to-decimal conversion: the register's value is decomposed
    /// into its decimal digits, most significant first, written as one byte
    /// each starting at the index register's address. A decomposition that
    /// would run past the end of memory is the fatal out-of-bounds error,
    /// with memory unchanged.
    pub(crate) fn opcode_apply_decimal_conversion(&self, memory: &mut Memory, reg_idx: u8)
        -> (r: Result<(), ExecError>)
        requires
            reg_idx < 16,
            self.index_reg <= 0xFFFF,
        ensures
            ({
                let ds = decimal_digits(self.var_regs[reg_idx as int]);
                if self.index_reg + ds.len() > MEMORY_SIZE {
                    &&& r == Err::<(), ExecError>(ExecError::MemoryOutOfBounds)
                    &&& final(memory).data@ == old(memory).data@
                } else {
                    &&& r == Ok::<(), ExecError>(())
                    &&& forall|k: int|
                        0 <= k < ds.len()
                            ==> final(memory).data@[self.index_reg + k] == ds[k]
                    &&& forall|k: int|
                        0 <= k < MEMORY_SIZE
                            && !(self.index_reg <= k < self.index_reg + ds.len())
                            ==> final(memory).data@[k] == old(memory).data@[k]
                }
            }),
    {
        let value = self.var_regs[reg_idx as usize];
        let i = self.index_reg;
        if value >= 100 {
            if i + 3 > MEMORY_SIZE {
                return Err(ExecError::MemoryOutOfBounds);
            }
            memory.write_byte(i, value / 100);
            memory.write_byte(i + 1, (value / 10) % 10);
            memory.write_byte(i + 2, value % 10);
        } else if value >= 10 {
            if i + 2 > MEMORY_SIZE {
                return Err(ExecError::MemoryOutOfBounds);
            }
            memory.write_byte(i, value / 10);
            memory.write_byte(i + 1, value % 10);
        } else {
            if i + 1 > MEMORY_SIZE {
                return Err(ExecError::MemoryOutOfBounds);
            }
            memory.write_byte(i, value);
        }
        Ok(())
    }

    /// Block store: registers 0 through `last_reg_idx` are copied to
    /// consecutive memory addresses starting at the index register, which
    /// is itself left unmodified (the modern policy for this historically
    /// divergent operation). A range that would run past the end of memory
    /// is the fatal out-of-bounds error, with memory unchanged.
    pub(crate) fn opcode_store_memory(&self, memory: &mut Memory, last_reg_idx: u8)
        -> (r: Result<(), ExecError>)
        requires
            last_reg_idx < 16,
            self.index_reg <= 0xFFFF,
        ensures
            self.index_reg + last_reg_idx + 1 > MEMORY_SIZE ==> {
                &&& r == Err::<(), ExecError>(ExecError::MemoryOutOfBounds)
                &&& final(memory).data@ == old(memory).data@
            },
            self.index_reg + last_reg_idx + 1 <= MEMORY_SIZE ==> {
                &&& r == Ok::<(), ExecError>(())
                &&& final(memory).data@ == stored_mem(
                    old(memory).data@,
                    self.index_reg as int,
                    self.var_regs@,
                    last_reg_idx as int,
                )
            },
    {
        let last = last_reg_idx as usize;
        if self.index_reg + last + 1 > MEMORY_SIZE {
            return Err(ExecError::MemoryOutOfBounds);
        }
        let mut i: usize = 0;
        while i <= last
            invariant
                last < 16,
                self.index_reg + last + 1 <= MEMORY_SIZE,
                i <= last + 1,
                memory.data@.len() == MEMORY_SIZE,
                forall|a: int|
                    self.index_reg <= a < self.index_reg + i
                        ==> memory.data@[a] == self.var_regs@[a - self.index_reg],
                forall|a: int|
                    0 <= a < MEMORY_SIZE && !(self.index_reg <= a < self.index_reg + i)
                        ==> memory.data@[a] == old(memory).data@[a],
            decreases last + 1 - i,
        {
            memory.write_byte(self.index_reg + i, self.var_regs[i]);
            i += 1;
        }
        proof {
            assert(memory.data@ =~= stored_mem(
                old(memory).data@,
                self.index_reg as int,
                self.var_regs@,
                last_reg_idx as int,
            ));
        }
        Ok(())
    }

    /// Block load: registers 0 through `last_reg_idx` receive the bytes at
    /// consecutive memory addresses starting at the index register, which
    /// is itself left unmodified (the modern policy for this historically
    /// divergent operation). A range that would run past the end of memory
    /// is the fatal out-of-bounds error, with the state unchanged.
    pub(crate) fn opcode_load_memory(&mut self, memory: &Memory, last_reg_idx: u8)
        -> (r: Result<(), ExecError>)
        requires
            last_reg_idx < 16,
            old(self).index_reg <= 0xFFFF,
        ensures
            old(self).index_reg + last_reg_idx + 1 > MEMORY_SIZE ==> {
                &&& r == Err::<(), ExecError>(ExecError::MemoryOutOfBounds)
                &&& *final(self) == *old(self)
            },
            old(self).index_reg + last_reg_idx + 1 <= MEMORY_SIZE ==> {
                &&& r == Ok::<(), ExecError>(())
                &&& only_regs_changed(*old(self), *final(self))
                &&& final(self).var_regs@ == loaded_regs(
                    old(self).var_regs@,
                    memory.data@,
                    old(self).index_reg as int,
                    last_reg_idx as int,
                )
            },
    {
        let last = last_reg_idx as usize;
        if self.index_reg + last + 1 > MEMORY_SIZE {
            return Err(ExecError::MemoryOutOfBounds);
        }
        let mut i: usize = 0;
        while i <= last
            invariant
                last < 16,
                self.index_reg + last + 1 <= MEMORY_SIZE,
                i <= last + 1,
                self.index_reg == old(self).index_reg,
                only_regs_changed(*old(self), *self),
                forall|k: int| 0 <= k < i
                    ==> self.var_regs@[k] == memory.data@[self.index_reg + k],
                forall|k: int| i <= k < 16 ==> self.var_regs@[k] == old(self).var_regs@[k],
            decreases last + 1 - i,
        {
            self.var_regs[i] = memory.read_byte(self.index_reg + i);
            i += 1;
        }
        proof {
            assert(self.var_regs@ =~= loaded_regs(
                old(self).var_regs@,
                memory.data@,
                old(self).index_reg as int,
                last_reg_idx as int,
            ));
        }
        Ok(())
    }
}

/// Relies on `rand::Rng::gen_range` over the full inclusive byte range: the
/// draw always succeeds, and nothing is assumed about which byte comes back.
#[verifier::external_body]
fn random_byte() -> u8 {
    let mut rng = rand::thread_rng();
    rng.gen_range(0..=0xFFu8)
}

} // verus!
