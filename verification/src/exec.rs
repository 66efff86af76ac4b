use vstd::prelude::*;

verus! {

use crate::state::{Fault, MachineState, FLAG_REG, NUM_KEYS, NUM_REGS, RAM_SIZE, SCREEN_HEIGHT,
    SCREEN_WIDTH};
use crate::isa::{
    add_spec, bcd_spec, call_spec, cls_spec, draw_collision, draw_screen, draw_spec,
    draw_toggles, exec_obs, fetch_in_bounds, fetched_word, first_held, key_skip_spec,
    lemma_decode_bounds, lemma_first_held_skip, load_regs_spec, nib_hi, res_agrees, ret_spec,
    shl_spec, shr_spec, skip_spec, sprite_row_bit, step_is_random, step_obs, store_regs_spec,
    sub_spec, subn_spec, wait_key_spec,
};
use crate::machine::{fill, Emulator};
use crate::rng::random_byte;

impl Emulator {
    /// 00E0 - CLS: clear the framebuffer; it counts as changed.
    pub fn op_00E0_cls(&mut self)
        requires
            old(self)@.wf(),
        ensures
            final(self)@.wf(),
            final(self)@ == cls_spec(old(self)@),
    {
        fill(&mut self.screen, false);
        self.screen_changed = true;
        proof {
            assert(self@.screen =~= cls_spec(old(self)@).screen);
            assert(self@ =~= cls_spec(old(self)@));
        }
    }

    /// 00EE - RET: pop the stack into the program counter.
    pub fn op_00EE_ret(&mut self) -> (r: Result<(), Fault>)
        requires
            old(self)@.wf(),
        ensures
            final(self)@.wf(),
            final(self)@ == ret_spec(old(self)@).0,
            res_agrees(r, ret_spec(old(self)@).1),
    {
        match self.pop() {
            Ok(addr) => {
                self.program_counter = addr;
                proof {
                    assert(self@ =~= ret_spec(old(self)@).0);
                }
                Ok(())
            },
            Err(f) => Err(f),
        }
    }

    /// 1NNN - JP: jump to address nnn.
    pub fn op_1NNN_jmp(&mut self, nnn: usize)
        requires
            old(self)@.wf(),
            nnn < 0x1000,
        ensures
            final(self)@.wf(),
            final(self)@ == old(self)@.with_pc(nnn as int),
    {
        self.program_counter = nnn as u16;
    }

    /// 2NNN - CALL: push the current program counter, jump to nnn.
    pub fn op_2NNN_call(&mut self, nnn: usize) -> (r: Result<(), Fault>)
        requires
            old(self)@.wf(),
            nnn < 0x1000,
        ensures
            final(self)@.wf(),
            final(self)@ == call_spec(old(self)@, nnn as int).0,
            res_agrees(r, call_spec(old(self)@, nnn as int).1),
    {
        let pc = self.program_counter;
        match self.push(pc) {
            Ok(()) => {
                self.program_counter = nnn as u16;
                proof {
                    assert(self@ =~= call_spec(old(self)@, nnn as int).0);
                }
                Ok(())
            },
            Err(f) => Err(f),
        }
    }

    /// Advances the program counter by one instruction when the condition
    /// holds: the common body of the conditional skips.
    pub(crate) fn skip_if(&mut self, condition: bool)
        requires
            old(self)@.wf(),
            old(self)@.pc + 2 < 0x10000,
        ensures
            final(self)@.wf(),
            final(self)@ == skip_spec(old(self)@, condition),
    {
        if condition {
            self.program_counter = self.program_counter + 2;
        }
    }

    /// 3XKK - SE Vx, kk: skip the next instruction if Vx == kk.
    pub fn op_3XKK_se_vx_kk(&mut self, vi: usize, kk: u8)
        requires
            old(self)@.wf(),
            vi < NUM_REGS,
            old(self)@.pc + 2 < 0x10000,
        ensures
            final(self)@.wf(),
            final(self)@ == skip_spec(old(self)@, old(self)@.vreg[vi as int] == kk),
    {
        let cond = self.vreg[vi] == kk;
        self.skip_if(cond);
    }

    /// 4XKK - SNE Vx, kk: skip the next instruction if Vx != kk.
    pub fn op_4XKK_sne_vx_kk(&mut self, vi: usize, kk: u8)
        requires
            old(self)@.wf(),
            vi < NUM_REGS,
            old(self)@.pc + 2 < 0x10000,
        ensures
            final(self)@.wf(),
            final(self)@ == skip_spec(old(self)@, old(self)@.vreg[vi as int] != kk),
    {
        let cond = self.vreg[vi] != kk;
        self.skip_if(cond);
    }

    /// 5XY0 - SE Vx, Vy: skip the next instruction if Vx == Vy.
    pub fn op_5XY0_se_vx_vy(&mut self, vi: usize, vj: usize)
        requires
            old(self)@.wf(),
            vi < NUM_REGS,
            vj < NUM_REGS,
            old(self)@.pc + 2 < 0x10000,
        ensures
            final(self)@.wf(),
            final(self)@ == skip_spec(
                old(self)@,
                old(self)@.vreg[vi as int] == old(self)@.vreg[vj as int],
            ),
    {
        let cond = self.vreg[vi] == self.vreg[vj];
        self.skip_if(cond);
    }

    /// 6XKK - LD Vx, kk: set Vx to kk.
    pub fn op_6XKK_ld_vx_kk(&mut self, vi: usize, kk: u8)
        requires
            old(self)@.wf(),
            vi < NUM_REGS,
        ensures
            final(self)@.wf(),
            final(self)@ == old(self)@.with_v(vi as int, kk),
    {
        self.vreg[vi] = kk;
    }

    /// 7XKK - ADD Vx, kk: add kk into Vx, wrapping modulo 256. Unlike the
    /// register-to-register add, this form leaves the flag register alone.
    pub fn op_7XKK_add_vx_kk(&mut self, vi: usize, kk: u8)
        requires
            old(self)@.wf(),
            vi < NUM_REGS,
        ensures
            final(self)@.wf(),
            final(self)@ == old(self)@.with_v(
                vi as int,
                ((old(self)@.vreg[vi as int] + kk) % 256) as u8,
            ),
    {
        let result = self.vreg[vi].wrapping_add(kk);
        self.vreg[vi] = result;
    }

    /// 8XY0 - LD Vx, Vy: copy Vy into Vx.
    pub fn op_8XY0_ld_vx_vy(&mut self, vi: usize, vj: usize)
        requires
            old(self)@.wf(),
            vi < NUM_REGS,
            vj < NUM_REGS,
        ensures
            final(self)@.wf(),
            final(self)@ == old(self)@.with_v(vi as int, old(self)@.vreg[vj as int]),
    {
        self.vreg[vi] = self.vreg[vj];
    }

    /// 8XY1 - OR Vx, Vy: bitwise or of Vy into Vx.
    pub fn op_8XY1_or_vx_vy(&mut self, vi: usize, vj: usize)
        requires
            old(self)@.wf(),
            vi < NUM_REGS,
            vj < NUM_REGS,
        ensures
            final(self)@.wf(),
            final(self)@ == old(self)@.with_v(
                vi as int,
                old(self)@.vreg[vi as int] | old(self)@.vreg[vj as int],
            ),
    {
        self.vreg[vi] = self.vreg[vi] | self.vreg[vj];
    }

    /// 8XY2 - AND Vx, Vy: bitwise and of Vy into Vx.
    pub fn op_8XY2_and_vx_vy(&mut self, vi: usize, vj: usize)
        requires
            old(self)@.wf(),
            vi < NUM_REGS,
            vj < NUM_REGS,
        ensures
            final(self)@.wf(),
            final(self)@ == old(self)@.with_v(
                vi as int,
                old(self)@.vreg[vi as int] & old(self)@.vreg[vj as int],
            ),
    {
        self.vreg[vi] = self.vreg[vi] & self.vreg[vj];
    }

    /// 8XY3 - XOR Vx, Vy: bitwise exclusive or of Vy into Vx.
    pub fn op_8XY3_xor_vx_vy(&mut self, vi: usize, vj: usize)
        requires
            old(self)@.wf(),
            vi < NUM_REGS,
            vj < NUM_REGS,
        ensures
            final(self)@.wf(),
            final(self)@ == old(self)@.with_v(
                vi as int,
                old(self)@.vreg[vi as int] ^ old(self)@.vreg[vj as int],
            ),
    {
        self.vreg[vi] = self.vreg[vi] ^ self.vreg[vj];
    }

    /// 8XY4 - ADD Vx, Vy: Vx takes the sum modulo 256, and the flag
    /// register takes 1 exactly when the unsigned sum exceeds 255.
    pub fn op_8XY4_add_vx_vy(&mut self, vi: usize, vj: usize)
        requires
            old(self)@.wf(),
            vi < NUM_REGS,
            vj < NUM_REGS,
        ensures
            final(self)@.wf(),
            final(self)@ == add_spec(old(self)@, vi as int, vj as int),
            vi != FLAG_REG ==> final(self)@.vreg[vi as int] == (old(self)@.vreg[vi as int] + old(
                self,
            )@.vreg[vj as int]) % 256,
            final(self)@.vreg[FLAG_REG as int] == (
            if old(self)@.vreg[vi as int] + old(self)@.vreg[vj as int] > 255 {
                1u8
            } else {
                0u8
            }),
    {
        let vx = self.vreg[vi] as u16;
        let vy = self.vreg[vj] as u16;
        let result = vx + vy;
        let carry = result > 0xFF;

        self.vreg[vi] = (result % 256) as u8;
        self.vreg[FLAG_REG] = if carry {
            1
        } else {
            0
        };
        proof {
            assert(self@ =~= add_spec(old(self)@, vi as int, vj as int));
        }
    }

    /// 8XY5 - SUB Vx, Vy: Vx takes Vx - Vy modulo 256, and the flag
    /// register takes 1 exactly when there was no borrow (Vx >= Vy).
    pub fn op_8XY5_sub_vx_vy(&mut self, vi: usize, vj: usize)
        requires
            old(self)@.wf(),
            vi < NUM_REGS,
            vj < NUM_REGS,
        ensures
            final(self)@.wf(),
            final(self)@ == sub_spec(old(self)@, vi as int, vj as int),
            vi != FLAG_REG ==> final(self)@.vreg[vi as int] == (old(self)@.vreg[vi as int] - old(
                self,
            )@.vreg[vj as int] + 256) % 256,
            final(self)@.vreg[FLAG_REG as int] == (
            if old(self)@.vreg[vi as int] >= old(self)@.vreg[vj as int] {
                1u8
            } else {
                0u8
            }),
    {
        let vx = self.vreg[vi];
        let vy = self.vreg[vj];
        let result = vx.wrapping_sub(vy);
        let no_borrow = vx >= vy;

        self.vreg[vi] = result;
        self.vreg[FLAG_REG] = if no_borrow {
            1
        } else {
            0
        };
        proof {
            assert(self@ =~= sub_spec(old(self)@, vi as int, vj as int));
        }
    }

    /// 8XY6 - SHR Vx: halve Vx in place; the flag register takes the bit
    /// shifted out, the pre-shift low bit.
    pub fn op_8XY6_shr_vx(&mut self, vi: usize)
        requires
            old(self)@.wf(),
            vi < NUM_REGS,
        ensures
            final(self)@.wf(),
            final(self)@ == shr_spec(old(self)@, vi as int),
            vi != FLAG_REG ==> final(self)@.vreg[vi as int] == old(self)@.vreg[vi as int] >> 1u8,
            vi != FLAG_REG ==> final(self)@.vreg[FLAG_REG as int] == old(self)@.vreg[vi as int]
                & 1,
    {
        self.vreg[FLAG_REG] = self.vreg[vi] & 1;
        self.vreg[vi] = self.vreg[vi] >> 1u8;
        proof {
            assert(self@ =~= shr_spec(old(self)@, vi as int));
        }
    }

    /// 8XY7 - SUBN Vx, Vy: Vx takes Vy - Vx modulo 256, and the flag
    /// register takes 1 exactly when there was no borrow (Vy >= Vx).
    pub fn op_8XY7_subn_vx_vy(&mut self, vi: usize, vj: usize)
        requires
            old(self)@.wf(),
            vi < NUM_REGS,
            vj < NUM_REGS,
        ensures
            final(self)@.wf(),
            final(self)@ == subn_spec(old(self)@, vi as int, vj as int),
            vi != FLAG_REG ==> final(self)@.vreg[vi as int] == (old(self)@.vreg[vj as int] - old(
                self,
            )@.vreg[vi as int] + 256) % 256,
            final(self)@.vreg[FLAG_REG as int] == (
            if old(self)@.vreg[vj as int] >= old(self)@.vreg[vi as int] {
                1u8
            } else {
                0u8
            }),
    {
        let vx = self.vreg[vi];
        let vy = self.vreg[vj];
        let result = vy.wrapping_sub(vx);
        let no_borrow = vy >= vx;

        self.vreg[vi] = result;
        self.vreg[FLAG_REG] = if no_borrow {
            1
        } else {
            0
        };
        proof {
            assert(self@ =~= subn_spec(old(self)@, vi as int, vj as int));
        }
    }

    /// 8XYE - SHL Vx: double Vx in place modulo 256; the flag register
    /// takes the bit shifted out, the pre-shift high bit.
    pub fn op_8XYE_shl_vx(&mut self, vi: usize)
        requires
            old(self)@.wf(),
            vi < NUM_REGS,
        ensures
            final(self)@.wf(),
            final(self)@ == shl_spec(old(self)@, vi as int),
            vi != FLAG_REG ==> final(self)@.vreg[vi as int] == old(self)@.vreg[vi as int] << 1u8,
            vi != FLAG_REG ==> final(self)@.vreg[FLAG_REG as int] == (old(self)@.vreg[vi as int]
                >> 7u8) & 1,
    {
        self.vreg[FLAG_REG] = (self.vreg[vi] >> 7u8) & 1;
        self.vreg[vi] = self.vreg[vi] << 1u8;
        proof {
            assert(self@ =~= shl_spec(old(self)@, vi as int));
        }
    }

    /// 9XY0 - SNE Vx, Vy: skip the next instruction if Vx != Vy.
    pub fn op_9XY0_sne_vx_vy(&mut self, vi: usize, vj: usize)
        requires
            old(self)@.wf(),
            vi < NUM_REGS,
            vj < NUM_REGS,
            old(self)@.pc + 2 < 0x10000,
        ensures
            final(self)@.wf(),
            final(self)@ == skip_spec(
                old(self)@,
                old(self)@.vreg[vi as int] != old(self)@.vreg[vj as int],
            ),
    {
        let cond = self.vreg[vi] != self.vreg[vj];
        self.skip_if(cond);
    }

    /// ANNN - LD I, nnn: set the index register to nnn.
    pub fn op_ANNN_ld_i_nnn(&mut self, nnn: usize)
        requires
            old(self)@.wf(),
            nnn < 0x1000,
        ensures
            final(self)@.wf(),
            final(self)@ == old(self)@.with_ireg(nnn as int),
    {
        self.ireg = nnn as u16;
    }

    /// BNNN - JP V0, nnn: jump to V0 + nnn.
    pub fn op_BNNN_jmp_v0_nnn(&mut self, nnn: usize)
        requires
            old(self)@.wf(),
            nnn < 0x1000,
        ensures
            final(self)@.wf(),
            final(self)@ == old(self)@.with_pc(old(self)@.vreg[0] + nnn),
    {
        self.program_counter = self.vreg[0] as u16 + nnn as u16;
    }

    /// CXKK - RND Vx, kk: Vx takes a byte from the random source, masked
    /// with kk. Every byte is a possible outcome; nothing more is known of
    /// which.
    pub fn op_CXKK_ld_vx_rand_and_kk(&mut self, vi: usize, kk: u8)
        requires
            old(self)@.wf(),
            vi < NUM_REGS,
        ensures
            final(self)@.wf(),
            exists|rb: u8| final(self)@ == old(self)@.with_v(vi as int, rb & kk),
    {
        let rb = random_byte();
        self.vreg[vi] = rb & kk;
        proof {
            assert(self@ == old(self)@.with_v(vi as int, rb & kk));
        }
    }

    /// EX9E - SKP Vx: skip the next instruction if the key indexed by Vx
    /// is held. A register value outside the keypad range is fatal.
    pub fn op_EX9E_skp_vx(&mut self, vi: usize) -> (r: Result<(), Fault>)
        requires
            old(self)@.wf(),
            vi < NUM_REGS,
            old(self)@.pc + 2 < 0x10000,
        ensures
            final(self)@.wf(),
            final(self)@ == key_skip_spec(old(self)@, vi as int, true).0,
            res_agrees(r, key_skip_spec(old(self)@, vi as int, true).1),
    {
        let vx = self.vreg[vi];
        if vx as usize >= NUM_KEYS {
            return Err(Fault::KeyOutOfRange { value: vx });
        }
        let held = self.keys[vx as usize];
        self.skip_if(held);
        Ok(())
    }

    /// EXA1 - SKNP Vx: skip the next instruction if the key indexed by Vx
    /// is not held. A register value outside the keypad range is fatal.
    pub fn op_EXA1_sknp_vx(&mut self, vi: usize) -> (r: Result<(), Fault>)
        requires
            old(self)@.wf(),
            vi < NUM_REGS,
            old(self)@.pc + 2 < 0x10000,
        ensures
            final(self)@.wf(),
            final(self)@ == key_skip_spec(old(self)@, vi as int, false).0,
            res_agrees(r, key_skip_spec(old(self)@, vi as int, false).1),
    {
        let vx = self.vreg[vi];
        if vx as usize >= NUM_KEYS {
            return Err(Fault::KeyOutOfRange { value: vx });
        }
        let held = self.keys[vx as usize];
        self.skip_if(!held);
        Ok(())
    }

    /// FX07 - LD Vx, DT: Vx takes the delay timer.
    pub fn op_FX07_ld_vx_dt(&mut self, vi: usize)
        requires
            old(self)@.wf(),
            vi < NUM_REGS,
        ensures
            final(self)@.wf(),
            final(self)@ == old(self)@.with_v(vi as int, old(self)@.delay),
    {
        self.vreg[vi] = self.delay_timer;
    }

    /// FX0A - LD Vx, K: scan the keypad in ascending index order. If some
    /// key is held, Vx takes the lowest held index; otherwise the program
    /// counter rewinds by one instruction, so the same instruction runs
    /// again on the next step. The host loop is never blocked.
    pub fn op_FX0A_ld_vx_key(&mut self, vi: usize)
        requires
            old(self)@.wf(),
            vi < NUM_REGS,
            old(self)@.pc >= 2,
        ensures
            final(self)@.wf(),
            final(self)@ == wait_key_spec(old(self)@, vi as int),
    {
        let mut found_key: usize = NUM_KEYS;
        let mut k: usize = 0;
        while k < NUM_KEYS
            invariant
                old(self)@.wf(),
                self@ == old(self)@,
                k <= NUM_KEYS,
                found_key < NUM_KEYS ==> found_key < k && self@.keys[found_key as int] && (forall|
                    j: int,
                |
                    0 <= j < found_key ==> !self@.keys[j]),
                found_key >= NUM_KEYS ==> found_key == NUM_KEYS && (forall|j: int|
                    0 <= j < k ==> !self@.keys[j]),
            decreases NUM_KEYS - k,
        {
            if found_key == NUM_KEYS && self.keys[k] {
                found_key = k;
            }
            k += 1;
        }
        proof {
            if found_key < NUM_KEYS {
                lemma_first_held_skip(self@.keys, found_key as int);
                assert(first_held(self@.keys, 0) == found_key);
            } else {
                lemma_first_held_skip(self@.keys, NUM_KEYS as int);
                assert(first_held(self@.keys, 0) == NUM_KEYS);
            }
        }
        if found_key < NUM_KEYS {
            self.vreg[vi] = found_key as u8;
        } else {
            self.program_counter = self.program_counter - 2;
        }
    }

    /// FX15 - LD DT, Vx: the delay timer takes Vx.
    pub fn op_FX15_ld_dt_vx(&mut self, vi: usize)
        requires
            old(self)@.wf(),
            vi < NUM_REGS,
        ensures
            final(self)@.wf(),
            final(self)@ == (MachineState { delay: old(self)@.vreg[vi as int], ..old(self)@ }),
    {
        self.delay_timer = self.vreg[vi];
    }

    /// FX18 - LD ST, Vx: the sound timer takes Vx.
    pub fn op_FX18_ld_st_vx(&mut self, vi: usize)
        requires
            old(self)@.wf(),
            vi < NUM_REGS,
        ensures
            final(self)@.wf(),
            final(self)@ == (MachineState { sound: old(self)@.vreg[vi as int], ..old(self)@ }),
    {
        self.sound_timer = self.vreg[vi];
    }

    /// FX1E - ADD I, Vx: add Vx into the index register, wrapping as a
    /// 16-bit value. The flag register is not touched.
    pub fn op_FX1E_add_i_vx(&mut self, vi: usize)
        requires
            old(self)@.wf(),
            vi < NUM_REGS,
        ensures
            final(self)@.wf(),
            final(self)@ == old(self)@.with_ireg(
                (old(self)@.ireg + old(self)@.vreg[vi as int]) % 0x10000,
            ),
    {
        self.ireg = self.ireg.wrapping_add(self.vreg[vi] as u16);
    }

    /// FX29 - LD F, Vx: the index register takes the address of the font
    /// glyph for the digit in Vx; each glyph occupies 5 bytes.
    pub fn op_FX29_ld_d_vx(&mut self, vi: usize)
        requires
            old(self)@.wf(),
            vi < NUM_REGS,
        ensures
            final(self)@.wf(),
            final(self)@ == old(self)@.with_ireg(old(self)@.vreg[vi as int] * 5),
    {
        self.ireg = self.vreg[vi] as u16 * 5;
    }

    /// The three decimal digits of a byte, by exact integer division:
    /// hundreds, tens, ones. They reconstruct the byte as
    /// hundreds * 100 + tens * 10 + ones.
    pub fn easy_to_read_bcd(x: u8) -> (r: (u8, u8, u8))
        ensures
            r.0 == x / 100,
            r.1 == (x / 10) % 10,
            r.2 == x % 10,
            r.0 <= 9 && r.1 <= 9 && r.2 <= 9,
            r.0 * 100 + r.1 * 10 + r.2 == x,
    {
        let hundreds = x / 100;
        let tens = (x / 10) % 10;
        let ones = x % 10;
        proof {
            assert(x / 100 * 100 + (x / 10) % 10 * 10 + x % 10 == x) by (bit_vector);
            assert(x / 100 <= 9) by (bit_vector);
        }
        (hundreds, tens, ones)
    }

    /// FX33 - LD B, Vx: store the decimal digits of Vx at I, I+1 and I+2:
    /// hundreds, tens, ones.
    pub fn op_FX33_ld_b_vx(&mut self, vi: usize) -> (r: Result<(), Fault>)
        requires
            old(self)@.wf(),
            vi < NUM_REGS,
        ensures
            final(self)@.wf(),
            final(self)@ == bcd_spec(old(self)@, vi as int).0,
            res_agrees(r, bcd_spec(old(self)@, vi as int).1),
    {
        if self.ireg as usize + 2 < RAM_SIZE {
            let (hundreds, tens, ones) = Emulator::easy_to_read_bcd(self.vreg[vi]);
            let ir = self.ireg as usize;
            self.ram[ir] = hundreds;
            self.ram[ir + 1] = tens;
            self.ram[ir + 2] = ones;
            proof {
                assert(self@ =~= bcd_spec(old(self)@, vi as int).0);
            }
            Ok(())
        } else {
            Err(Fault::MemoryOutOfBounds { addr: self.ireg as u32 + 2 })
        }
    }

    /// FX55 - LD [I], Vx: store V0 through Vx (inclusive) into memory at I
    /// onward.
    pub fn op_FX55_ld_i_vx(&mut self, n: usize) -> (r: Result<(), Fault>)
        requires
            old(self)@.wf(),
            n < NUM_REGS,
        ensures
            final(self)@.wf(),
            final(self)@ == store_regs_spec(old(self)@, n as int).0,
            res_agrees(r, store_regs_spec(old(self)@, n as int).1),
    {
        if self.ireg as usize + n < RAM_SIZE {
            let start_address = self.ireg as usize;
            let mut i: usize = 0;
            while i <= n
                invariant
                    old(self)@.wf(),
                    self@.wf(),
                    n < NUM_REGS,
                    i <= n + 1,
                    start_address == old(self)@.ireg,
                    start_address + n < RAM_SIZE,
                    self@ == (MachineState { ram: self@.ram, ..old(self)@ }),
                    forall|j: int|
                        0 <= j < i ==> self@.ram[start_address + j] == old(self)@.vreg[j],
                    forall|j: int|
                        (0 <= j < start_address || start_address + i <= j < RAM_SIZE)
                            ==> self@.ram[j] == old(self)@.ram[j],
                decreases n + 1 - i,
            {
                self.ram[start_address + i] = self.vreg[i];
                i += 1;
            }
            proof {
                assert(self@.ram =~= store_regs_spec(old(self)@, n as int).0.ram);
                assert(self@ =~= store_regs_spec(old(self)@, n as int).0);
            }
            Ok(())
        } else {
            Err(Fault::MemoryOutOfBounds { addr: self.ireg as u32 + n as u32 })
        }
    }

    /// FX65 - LD Vx, [I]: load memory at I onward into V0 through Vx
    /// (inclusive).
    pub fn op_FX65_ld_vx_i(&mut self, n: usize) -> (r: Result<(), Fault>)
        requires
            old(self)@.wf(),
            n < NUM_REGS,
        ensures
            final(self)@.wf(),
            final(self)@ == load_regs_spec(old(self)@, n as int).0,
            res_agrees(r, load_regs_spec(old(self)@, n as int).1),
    {
        if self.ireg as usize + n < RAM_SIZE {
            let start_address = self.ireg as usize;
            let mut i: usize = 0;
            while i <= n
                invariant
                    old(self)@.wf(),
                    self@.wf(),
                    n < NUM_REGS,
                    i <= n + 1,
                    start_address == old(self)@.ireg,
                    start_address + n < RAM_SIZE,
                    self@ == (MachineState { vreg: self@.vreg, ..old(self)@ }),
                    forall|j: int|
                        0 <= j < i ==> self@.vreg[j] == old(self)@.ram[start_address + j],
                    forall|j: int| i <= j < NUM_REGS ==> self@.vreg[j] == old(self)@.vreg[j],
                decreases n + 1 - i,
            {
                self.vreg[i] = self.ram[start_address + i];
                i += 1;
            }
            proof {
                assert(self@.vreg =~= load_regs_spec(old(self)@, n as int).0.vreg);
                assert(self@ =~= load_regs_spec(old(self)@, n as int).0);
            }
            Ok(())
        } else {
            Err(Fault::MemoryOutOfBounds { addr: self.ireg as u32 + n as u32 })
        }
    }
}

// ===== Proof scaffolding for the draw loop =====
//
// The draw loop walks the sprite row by row and bit by bit; these specs
// name the set of pixels toggled by the part of the sprite already walked,
// and the collision seen so far.

/// Whether one of the first `b` bits of sprite row `r` toggles the pixel
/// at (px, py).
spec fn row_bits_partial(
    m: MachineState,
    x0: int,
    y0: int,
    r: int,
    b: int,
    px: int,
    py: int,
) -> bool {
    exists|bit: int|
        0 <= bit < b && py == (y0 + r) % 32 && px == (x0 + bit) % 64
            && #[trigger] sprite_row_bit(m.ram[m.ireg + r], bit)
}

/// Whether the sprite part walked so far, the full rows before `r` plus
/// the first `b` bits of row `r`, toggles the pixel at (px, py).
spec fn draw_toggles_partial(
    m: MachineState,
    x0: int,
    y0: int,
    r: int,
    b: int,
    px: int,
    py: int,
) -> bool {
    draw_toggles(m, x0, y0, r, px, py) || row_bits_partial(m, x0, y0, r, b, px, py)
}

/// Whether the sprite part walked so far has toggled an already-on pixel.
spec fn collision_upto(m: MachineState, x0: int, y0: int, r: int, b: int) -> bool {
    exists|i: int|
        0 <= i < m.screen.len() && #[trigger] m.screen[i] && draw_toggles_partial(
            m,
            x0,
            y0,
            r,
            b,
            i % 64,
            i / 64,
        )
}

/// Two offsets less than the modulus apart land on distinct residues.
proof fn lemma_mod_window_distinct(a: int, i: int, j: int, m: int)
    requires
        0 <= a,
        0 <= i < j,
        j - i < m,
        0 < m,
    ensures
        (a + i) % m != (a + j) % m,
{
    vstd::arithmetic::div_mod::lemma_fundamental_div_mod(a + i, m);
    vstd::arithmetic::div_mod::lemma_fundamental_div_mod(a + j, m);
    vstd::arithmetic::div_mod::lemma_mod_bound(a + i, m);
    vstd::arithmetic::div_mod::lemma_mod_bound(a + j, m);
    if (a + i) % m == (a + j) % m {
        let q1 = (a + i) / m;
        let q2 = (a + j) / m;
        assert(j - i == m * (q2 - q1)) by (nonlinear_arith)
            requires
                a + i == m * q1 + (a + i) % m,
                a + j == m * q2 + (a + j) % m,
                (a + i) % m == (a + j) % m,
        ;
        assert(m * (q2 - q1) != j - i) by (nonlinear_arith)
            requires
                0 < j - i < m,
        ;
    }
}

/// Walking one more bit of row `r` adds exactly the pixel that bit `b`
/// toggles, when it is set.
proof fn lemma_partial_step(m: MachineState, x0: int, y0: int, r: int, b: int, px: int, py: int)
    requires
        0 <= b,
    ensures
        draw_toggles_partial(m, x0, y0, r, b + 1, px, py) == (draw_toggles_partial(
            m,
            x0,
            y0,
            r,
            b,
            px,
            py,
        ) || (py == (y0 + r) % 32 && px == (x0 + b) % 64 && sprite_row_bit(m.ram[m.ireg + r], b))),
{
    if draw_toggles_partial(m, x0, y0, r, b + 1, px, py) && !draw_toggles_partial(
        m,
        x0,
        y0,
        r,
        b,
        px,
        py,
    ) {
        let bb = choose|bb: int|
            0 <= bb < b + 1 && py == (y0 + r) % 32 && px == (x0 + bb) % 64
                && #[trigger] sprite_row_bit(m.ram[m.ireg + r], bb);
        assert(bb == b);
    }
    if py == (y0 + r) % 32 && px == (x0 + b) % 64 && sprite_row_bit(m.ram[m.ireg + r], b) {
        assert(row_bits_partial(m, x0, y0, r, b + 1, px, py));
    }
}

/// A fully walked row is one more complete row.
proof fn lemma_partial_row_done(m: MachineState, x0: int, y0: int, r: int, px: int, py: int)
    requires
        0 <= r,
    ensures
        draw_toggles_partial(m, x0, y0, r, 8, px, py) == draw_toggles(m, x0, y0, r + 1, px, py),
{
    if draw_toggles_partial(m, x0, y0, r, 8, px, py) {
        if draw_toggles(m, x0, y0, r, px, py) {
            let (rr, bb) = choose|rr: int, bb: int|
                0 <= rr < r && 0 <= bb < 8 && py == (y0 + rr) % 32 && px == (x0 + bb) % 64
                    && #[trigger] sprite_row_bit(m.ram[m.ireg + rr], bb);
            assert(draw_toggles(m, x0, y0, r + 1, px, py));
        } else {
            let bb = choose|bb: int|
                0 <= bb < 8 && py == (y0 + r) % 32 && px == (x0 + bb) % 64
                    && #[trigger] sprite_row_bit(m.ram[m.ireg + r], bb);
            assert(draw_toggles(m, x0, y0, r + 1, px, py));
        }
    }
    if draw_toggles(m, x0, y0, r + 1, px, py) {
        let (rr, bb) = choose|rr: int, bb: int|
            0 <= rr < r + 1 && 0 <= bb < 8 && py == (y0 + rr) % 32 && px == (x0 + bb) % 64
                && #[trigger] sprite_row_bit(m.ram[m.ireg + rr], bb);
        if rr < r {
            assert(draw_toggles(m, x0, y0, r, px, py));
        } else {
            assert(row_bits_partial(m, x0, y0, r, 8, px, py));
        }
    }
}

/// The collision seen after fully walking row `r` is the collision of the
/// first r + 1 complete rows.
proof fn lemma_collision_row_done(m: MachineState, x0: int, y0: int, r: int)
    requires
        0 <= r,
    ensures
        collision_upto(m, x0, y0, r, 8) == draw_collision(m, x0, y0, r + 1),
{
    if collision_upto(m, x0, y0, r, 8) {
        let i = choose|i: int|
            0 <= i < m.screen.len() && #[trigger] m.screen[i] && draw_toggles_partial(
                m,
                x0,
                y0,
                r,
                8,
                i % 64,
                i / 64,
            );
        lemma_partial_row_done(m, x0, y0, r, i % 64, i / 64);
        assert(draw_collision(m, x0, y0, r + 1));
    }
    if draw_collision(m, x0, y0, r + 1) {
        let i = choose|i: int|
            0 <= i < m.screen.len() && #[trigger] m.screen[i] && draw_toggles(
                m,
                x0,
                y0,
                r + 1,
                i % 64,
                i / 64,
            );
        lemma_partial_row_done(m, x0, y0, r, i % 64, i / 64);
        assert(collision_upto(m, x0, y0, r, 8));
    }
}

/// Before any bit of row `r` is walked, the collision seen is that of the
/// first r complete rows.
proof fn lemma_collision_row_start(m: MachineState, x0: int, y0: int, r: int)
    ensures
        collision_upto(m, x0, y0, r, 0) == draw_collision(m, x0, y0, r),
{
    if collision_upto(m, x0, y0, r, 0) {
        let i = choose|i: int|
            0 <= i < m.screen.len() && #[trigger] m.screen[i] && draw_toggles_partial(
                m,
                x0,
                y0,
                r,
                0,
                i % 64,
                i / 64,
            );
        assert(draw_collision(m, x0, y0, r));
    }
    if draw_collision(m, x0, y0, r) {
        let i = choose|i: int|
            0 <= i < m.screen.len() && #[trigger] m.screen[i] && draw_toggles(
                m,
                x0,
                y0,
                r,
                i % 64,
                i / 64,
            );
        assert(collision_upto(m, x0, y0, r, 0));
    }
}

impl Emulator {
    /// DXYN - DRW Vx, Vy, n: XOR the n-row sprite at I onto the
    /// framebuffer at (Vx, Vy), wrapping each axis, and set the flag
    /// register to 1 exactly when a toggle turned an on pixel off. The
    /// framebuffer counts as changed even when no pixel toggled. Sprite
    /// rows past the end of memory are fatal.
    pub fn op_DXYN_drw(&mut self, vi: usize, vj: usize, n: usize) -> (r: Result<(), Fault>)
        requires
            old(self)@.wf(),
            vi < NUM_REGS,
            vj < NUM_REGS,
            n < 16,
        ensures
            final(self)@.wf(),
            final(self)@ == draw_spec(old(self)@, vi as int, vj as int, n as int).0,
            res_agrees(r, draw_spec(old(self)@, vi as int, vj as int, n as int).1),
    {
        if n > 0 && self.ireg as usize + n > RAM_SIZE {
            return Err(Fault::MemoryOutOfBounds { addr: self.ireg as u32 + n as u32 - 1 });
        }
        let x_coord = self.vreg[vi] as usize;
        let y_coord = self.vreg[vj] as usize;
        let mut flipped = false;

        let mut row: usize = 0;
        while row < n
            invariant
                old(self)@.wf(),
                vi < NUM_REGS,
                vj < NUM_REGS,
                n < 16,
                row <= n,
                n > 0 ==> old(self)@.ireg + n <= RAM_SIZE,
                x_coord == old(self)@.vreg[vi as int],
                y_coord == old(self)@.vreg[vj as int],
                self@ == (MachineState { screen: self@.screen, ..old(self)@ }),
                self@.screen.len() == old(self)@.screen.len(),
                forall|i: int|
                    0 <= i < old(self)@.screen.len() ==> self@.screen[i] == (old(self)@.screen[i]
                        ^ draw_toggles(
                        old(self)@,
                        x_coord as int,
                        y_coord as int,
                        row as int,
                        i % 64,
                        i / 64,
                    )),
                flipped == draw_collision(old(self)@, x_coord as int, y_coord as int, row as int),
            decreases n - row,
        {
            let y = (y_coord + row) % SCREEN_HEIGHT;
            let pixels = self.ram[self.ireg as usize + row];

            proof {
                lemma_collision_row_start(
                    old(self)@,
                    x_coord as int,
                    y_coord as int,
                    row as int,
                );
            }
            let mut bit: usize = 0;
            while bit < 8
                invariant
                    old(self)@.wf(),
                    vi < NUM_REGS,
                    vj < NUM_REGS,
                    n < 16,
                    row < n,
                    bit <= 8,
                    old(self)@.ireg + n <= RAM_SIZE,
                    x_coord == old(self)@.vreg[vi as int],
                    y_coord == old(self)@.vreg[vj as int],
                    y == (y_coord + row) % 32,
                    pixels == old(self)@.ram[old(self)@.ireg + row],
                    self@ == (MachineState { screen: self@.screen, ..old(self)@ }),
                    self@.screen.len() == old(self)@.screen.len(),
                    forall|i: int|
                        0 <= i < old(self)@.screen.len() ==> self@.screen[i] == (old(
                            self,
                        )@.screen[i] ^ draw_toggles_partial(
                            old(self)@,
                            x_coord as int,
                            y_coord as int,
                            row as int,
                            bit as int,
                            i % 64,
                            i / 64,
                        )),
                    flipped == collision_upto(
                        old(self)@,
                        x_coord as int,
                        y_coord as int,
                        row as int,
                        bit as int,
                    ),
                decreases 8 - bit,
            {
                let ghost scr_prev = self@.screen;
                let ghost flipped_prev = flipped;
                let ghost m0 = old(self)@;
                let ghost x0 = x_coord as int;
                let ghost y0 = y_coord as int;
                let ghost rr = row as int;
                let ghost bb = bit as int;

                let x = (x_coord + bit) % SCREEN_WIDTH;
                let index = y * SCREEN_WIDTH + x;
                let color = pixels & (0b1000_0000u8 >> bit);

                proof {
                    assert(index < 2048);
                    assert(index as int % 64 == x as int && index as int / 64 == y as int);
                    // no part of the sprite walked so far toggles this pixel
                    assert(!draw_toggles_partial(m0, x0, y0, rr, bb, x as int, y as int)) by {
                        if draw_toggles(m0, x0, y0, rr, x as int, y as int) {
                            let (r2, b2) = choose|r2: int, b2: int|
                                0 <= r2 < rr && 0 <= b2 < 8 && y as int == (y0 + r2) % 32
                                    && x as int == (x0 + b2) % 64 && #[trigger] sprite_row_bit(
                                    m0.ram[m0.ireg + r2],
                                    b2,
                                );
                            lemma_mod_window_distinct(y0, r2, rr, 32);
                        }
                        if row_bits_partial(m0, x0, y0, rr, bb, x as int, y as int) {
                            let b2 = choose|b2: int|
                                0 <= b2 < bb && y as int == (y0 + rr) % 32 && x as int == (x0
                                    + b2) % 64 && #[trigger] sprite_row_bit(
                                    m0.ram[m0.ireg + rr],
                                    b2,
                                );
                            lemma_mod_window_distinct(x0, b2, bb, 64);
                        }
                    };
                }
                if color != 0 {
                    let cur = self.screen[index];
                    flipped = flipped || cur;
                    self.screen[index] = !cur;
                }
                proof {
                    let toggled_here = sprite_row_bit(m0.ram[m0.ireg + rr], bb);
                    assert(toggled_here == (color != 0));
                    assert forall|i: int| 0 <= i < m0.screen.len() implies self@.screen[i] == (
                    m0.screen[i] ^ draw_toggles_partial(
                        m0,
                        x0,
                        y0,
                        rr,
                        bb + 1,
                        i % 64,
                        i / 64,
                    )) by {
                        lemma_partial_step(m0, x0, y0, rr, bb, i % 64, i / 64);
                        if i == index as int {
                            assert(i % 64 == x as int && i / 64 == y as int);
                        } else {
                            if i % 64 == x as int && i / 64 == y as int {
                                assert(i == (i / 64) * 64 + i % 64);
                                assert(false);
                            }
                            assert(self@.screen[i] == scr_prev[i]);
                        }
                    }
                    assert(flipped == collision_upto(m0, x0, y0, rr, bb + 1)) by {
                        if flipped {
                            if flipped_prev {
                                let i = choose|i: int|
                                    0 <= i < m0.screen.len() && #[trigger] m0.screen[i]
                                        && draw_toggles_partial(
                                        m0,
                                        x0,
                                        y0,
                                        rr,
                                        bb,
                                        i % 64,
                                        i / 64,
                                    );
                                lemma_partial_step(m0, x0, y0, rr, bb, i % 64, i / 64);
                                assert(collision_upto(m0, x0, y0, rr, bb + 1));
                            } else {
                                // the pixel just toggled was on
                                assert(toggled_here && m0.screen[index as int]);
                                lemma_partial_step(m0, x0, y0, rr, bb, x as int, y as int);
                                assert(draw_toggles_partial(
                                    m0,
                                    x0,
                                    y0,
                                    rr,
                                    bb + 1,
                                    x as int,
                                    y as int,
                                ));
                                assert(collision_upto(m0, x0, y0, rr, bb + 1));
                            }
                        } else {
                            if collision_upto(m0, x0, y0, rr, bb + 1) {
                                let i = choose|i: int|
                                    0 <= i < m0.screen.len() && #[trigger] m0.screen[i]
                                        && draw_toggles_partial(
                                        m0,
                                        x0,
                                        y0,
                                        rr,
                                        bb + 1,
                                        i % 64,
                                        i / 64,
                                    );
                                lemma_partial_step(m0, x0, y0, rr, bb, i % 64, i / 64);
                                if draw_toggles_partial(m0, x0, y0, rr, bb, i % 64, i / 64) {
                                    assert(collision_upto(m0, x0, y0, rr, bb));
                                    assert(false);
                                } else {
                                    assert(i % 64 == x as int && i / 64 == y as int);
                                    assert(i == (i / 64) * 64 + i % 64);
                                    assert(i == index as int);
                                    assert(false);
                                }
                            }
                        }
                    };
                }
                bit += 1;
            }
            proof {
                let m0 = old(self)@;
                let x0 = x_coord as int;
                let y0 = y_coord as int;
                assert forall|i: int| 0 <= i < m0.screen.len() implies self@.screen[i] == (
                m0.screen[i] ^ draw_toggles(m0, x0, y0, row as int + 1, i % 64, i / 64)) by {
                    lemma_partial_row_done(m0, x0, y0, row as int, i % 64, i / 64);
                }
                lemma_collision_row_done(m0, x0, y0, row as int);
            }
            row += 1;
        }

        self.vreg[FLAG_REG] = if flipped {
            1
        } else {
            0
        };
        self.screen_changed = true;
        proof {
            assert(self@.screen =~= draw_screen(
                old(self)@,
                x_coord as int,
                y_coord as int,
                n as int,
            ));
            assert(self@ =~= draw_spec(old(self)@, vi as int, vj as int, n as int).0);
        }
        Ok(())
    }

    /// Executes one fetched instruction word on a state whose program
    /// counter already points past it. Dispatch is a function of the four
    /// nibbles alone, with wildcards on the nibbles a family ignores; a
    /// word matching no defined pattern is fatal, carrying the word and
    /// its nibbles.
    pub fn execute(&mut self, opcode: u16) -> (r: Result<(), Fault>)
        requires
            old(self)@.wf(),
            2 <= old(self)@.pc,
            old(self)@.pc + 2 < 0x10000,
        ensures
            final(self)@.wf(),
            exists|rb: u8| #[trigger] exec_obs(old(self)@, opcode, final(self)@, r, rb),
            nib_hi(opcode) != 0xC ==> exec_obs(old(self)@, opcode, final(self)@, r, 0),
    {
        proof {
            lemma_decode_bounds(opcode);
        }
        let d1 = opcode >> 12;
        let d2 = (opcode >> 8) & 0xF;
        let d3 = (opcode >> 4) & 0xF;
        let d4 = opcode & 0xF;

        let nnn = (opcode & 0xFFF) as usize;
        let kk = (opcode & 0xFF) as u8;
        let x = d2 as usize;
        let y = d3 as usize;
        let n = d4 as usize;

        // Each arm records its outcome against the transition function;
        // the recorded fact is the witness the postcondition asks for.
        if opcode == 0x0000 {
            proof {
                assert(exec_obs(old(self)@, opcode, self@, Ok(()), 0));
            }
            Ok(())
        } else if opcode == 0x00E0 {
            self.op_00E0_cls();
            proof {
                assert(exec_obs(old(self)@, opcode, self@, Ok(()), 0));
            }
            Ok(())
        } else if opcode == 0x00EE {
            let r = self.op_00EE_ret();
            proof {
                assert(exec_obs(old(self)@, opcode, self@, r, 0));
            }
            r
        } else if d1 == 0x1 {
            self.op_1NNN_jmp(nnn);
            proof {
                assert(exec_obs(old(self)@, opcode, self@, Ok(()), 0));
            }
            Ok(())
        } else if d1 == 0x2 {
            let r = self.op_2NNN_call(nnn);
            proof {
                assert(exec_obs(old(self)@, opcode, self@, r, 0));
            }
            r
        } else if d1 == 0x3 {
            self.op_3XKK_se_vx_kk(x, kk);
            proof {
                assert(exec_obs(old(self)@, opcode, self@, Ok(()), 0));
            }
            Ok(())
        } else if d1 == 0x4 {
            self.op_4XKK_sne_vx_kk(x, kk);
            proof {
                assert(exec_obs(old(self)@, opcode, self@, Ok(()), 0));
            }
            Ok(())
        } else if d1 == 0x5 && d4 == 0x0 {
            self.op_5XY0_se_vx_vy(x, y);
            proof {
                assert(exec_obs(old(self)@, opcode, self@, Ok(()), 0));
            }
            Ok(())
        } else if d1 == 0x6 {
            self.op_6XKK_ld_vx_kk(x, kk);
            proof {
                assert(exec_obs(old(self)@, opcode, self@, Ok(()), 0));
            }
            Ok(())
        } else if d1 == 0x7 {
            self.op_7XKK_add_vx_kk(x, kk);
            proof {
                assert(exec_obs(old(self)@, opcode, self@, Ok(()), 0));
            }
            Ok(())
        } else if d1 == 0x8 && d4 == 0x0 {
            self.op_8XY0_ld_vx_vy(x, y);
            proof {
                assert(exec_obs(old(self)@, opcode, self@, Ok(()), 0));
            }
            Ok(())
        } else if d1 == 0x8 && d4 == 0x1 {
            self.op_8XY1_or_vx_vy(x, y);
            proof {
                assert(exec_obs(old(self)@, opcode, self@, Ok(()), 0));
            }
            Ok(())
        } else if d1 == 0x8 && d4 == 0x2 {
            self.op_8XY2_and_vx_vy(x, y);
            proof {
                assert(exec_obs(old(self)@, opcode, self@, Ok(()), 0));
            }
            Ok(())
        } else if d1 == 0x8 && d4 == 0x3 {
            self.op_8XY3_xor_vx_vy(x, y);
            proof {
                assert(exec_obs(old(self)@, opcode, self@, Ok(()), 0));
            }
            Ok(())
        } else if d1 == 0x8 && d4 == 0x4 {
            self.op_8XY4_add_vx_vy(x, y);
            proof {
                assert(exec_obs(old(self)@, opcode, self@, Ok(()), 0));
            }
            Ok(())
        } else if d1 == 0x8 && d4 == 0x5 {
            self.op_8XY5_sub_vx_vy(x, y);
            proof {
                assert(exec_obs(old(self)@, opcode, self@, Ok(()), 0));
            }
            Ok(())
        } else if d1 == 0x8 && d4 == 0x6 {
            self.op_8XY6_shr_vx(x);
            proof {
                assert(exec_obs(old(self)@, opcode, self@, Ok(()), 0));
            }
            Ok(())
        } else if d1 == 0x8 && d4 == 0x7 {
            self.op_8XY7_subn_vx_vy(x, y);
            proof {
                assert(exec_obs(old(self)@, opcode, self@, Ok(()), 0));
            }
            Ok(())
        } else if d1 == 0x8 && d4 == 0xE {
            self.op_8XYE_shl_vx(x);
            proof {
                assert(exec_obs(old(self)@, opcode, self@, Ok(()), 0));
            }
            Ok(())
        } else if d1 == 0x9 && d4 == 0x0 {
            self.op_9XY0_sne_vx_vy(x, y);
            proof {
                assert(exec_obs(old(self)@, opcode, self@, Ok(()), 0));
            }
            Ok(())
        } else if d1 == 0xA {
            self.op_ANNN_ld_i_nnn(nnn);
            proof {
                assert(exec_obs(old(self)@, opcode, self@, Ok(()), 0));
            }
            Ok(())
        } else if d1 == 0xB {
            self.op_BNNN_jmp_v0_nnn(nnn);
            proof {
                assert(exec_obs(old(self)@, opcode, self@, Ok(()), 0));
            }
            Ok(())
        } else if d1 == 0xC {
            self.op_CXKK_ld_vx_rand_and_kk(x, kk);
            proof {
                let rb = choose|rb: u8| self@ == old(self)@.with_v(x as int, rb & kk);
                assert(exec_obs(old(self)@, opcode, self@, Ok(()), rb));
            }
            Ok(())
        } else if d1 == 0xD {
            let r = self.op_DXYN_drw(x, y, n);
            proof {
                assert(exec_obs(old(self)@, opcode, self@, r, 0));
            }
            r
        } else if d1 == 0xE && kk == 0x9E {
            let r = self.op_EX9E_skp_vx(x);
            proof {
                assert(exec_obs(old(self)@, opcode, self@, r, 0));
            }
            r
        } else if d1 == 0xE && kk == 0xA1 {
            let r = self.op_EXA1_sknp_vx(x);
            proof {
                assert(exec_obs(old(self)@, opcode, self@, r, 0));
            }
            r
        } else if d1 == 0xF && kk == 0x07 {
            self.op_FX07_ld_vx_dt(x);
            proof {
                assert(exec_obs(old(self)@, opcode, self@, Ok(()), 0));
            }
            Ok(())
        } else if d1 == 0xF && kk == 0x0A {
            self.op_FX0A_ld_vx_key(x);
            proof {
                assert(exec_obs(old(self)@, opcode, self@, Ok(()), 0));
            }
            Ok(())
        } else if d1 == 0xF && kk == 0x15 {
            self.op_FX15_ld_dt_vx(x);
            proof {
                assert(exec_obs(old(self)@, opcode, self@, Ok(()), 0));
            }
            Ok(())
        } else if d1 == 0xF && kk == 0x18 {
            self.op_FX18_ld_st_vx(x);
            proof {
                assert(exec_obs(old(self)@, opcode, self@, Ok(()), 0));
            }
            Ok(())
        } else if d1 == 0xF && kk == 0x1E {
            self.op_FX1E_add_i_vx(x);
            proof {
                assert(exec_obs(old(self)@, opcode, self@, Ok(()), 0));
            }
            Ok(())
        } else if d1 == 0xF && kk == 0x29 {
            self.op_FX29_ld_d_vx(x);
            proof {
                assert(exec_obs(old(self)@, opcode, self@, Ok(()), 0));
            }
            Ok(())
        } else if d1 == 0xF && kk == 0x33 {
            let r = self.op_FX33_ld_b_vx(x);
            proof {
                assert(exec_obs(old(self)@, opcode, self@, r, 0));
            }
            r
        } else if d1 == 0xF && kk == 0x55 {
            let r = self.op_FX55_ld_i_vx(x);
            proof {
                assert(exec_obs(old(self)@, opcode, self@, r, 0));
            }
            r
        } else if d1 == 0xF && kk == 0x65 {
            let r = self.op_FX65_ld_vx_i(x);
            proof {
                assert(exec_obs(old(self)@, opcode, self@, r, 0));
            }
            r
        } else {
            let r: Result<(), Fault> = Err(
                Fault::UnimplementedOpcode {
                    opcode,
                    d1: d1 as u8,
                    d2: d2 as u8,
                    d3: d3 as u8,
                    d4: d4 as u8,
                },
            );
            proof {
                assert(exec_obs(old(self)@, opcode, self@, r, 0));
            }
            r
        }
    }

    /// One fetch/decode/execute cycle: clears the changed mark, fetches
    /// the word at the program counter, advances the counter by 2, and
    /// executes the word. Any fatal condition is reported; the host is
    /// expected to end the session on one.
    pub fn tick(&mut self) -> (r: Result<(), Fault>)
        requires
            old(self)@.wf(),
        ensures
            final(self)@.wf(),
            exists|rb: u8| #[trigger] step_obs(old(self)@, final(self)@, r, rb),
            !step_is_random(old(self)@) ==> step_obs(old(self)@, final(self)@, r, 0),
    {
        self.screen_changed = false;
        let ghost cleared = self@;
        let fetched = self.fetch_opcode();
        match fetched {
            Ok(opcode) => {
                let ghost mid = self@;
                let r = self.execute(opcode);
                proof {
                    assert(cleared == (MachineState { screen_changed: false, ..old(self)@ }));
                    assert(fetch_in_bounds(old(self)@));
                    assert(opcode == fetched_word(old(self)@));
                    assert(mid =~= (MachineState {
                        pc: old(self)@.pc + 2,
                        ..(MachineState { screen_changed: false, ..old(self)@ })
                    }));
                    let rb = choose|rb: u8| #[trigger] exec_obs(mid, opcode, self@, r, rb);
                    assert(step_obs(old(self)@, self@, r, rb));
                    if !step_is_random(old(self)@) {
                        assert(exec_obs(mid, opcode, self@, r, 0));
                        assert(step_obs(old(self)@, self@, r, 0));
                    }
                }
                r
            },
            Err(f) => {
                proof {
                    assert(self@ =~= (MachineState { screen_changed: false, ..old(self)@ }));
                    assert(step_obs(old(self)@, self@, Err(f), 0));
                }
                Err(f)
            },
        }
    }
}

} // verus!
