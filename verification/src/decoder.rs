//! The instruction decoder: a state machine that consumes a byte stream in a
//! single left-to-right pass and renders one offset-annotated text line per
//! instruction (or error notice).
//!
//! Six opcodes are known. `HALT` (`0x00`) is one byte wide and completes at
//! once. `MOV` (`0x30`), `ADD` (`0x60`), `SUB` (`0x61`) and `AND` (`0x62`)
//! take a packed register-pair byte; `ADD`/`SUB`/`AND` complete there, two
//! bytes wide. `JMP` (`0x70`) and `JLE` (`0x71`) take a four-byte big-endian
//! address, five bytes wide in all. `MOV` falls through to the same
//! accumulator path as the jumps and so is six bytes wide, its last four
//! bytes rendered as an eight-digit value; that width follows the completion
//! thresholds below, which govern the output byte for byte.

use crate::hex::{hex_str, is_hex_char, lemma_spec_hex_chars, spec_hex};
use vstd::prelude::*;

verus! {

/// The transient state of one decode pass: the operand-byte counter `k`
/// (0 while the next byte is an opcode), the opcode currently being decoded,
/// and the accumulator for multi-byte operand values.
#[derive(Clone, Copy, PartialEq, Eq, Structural, Debug)]
pub struct Cursor {
    /// How many operand bytes of the current instruction have been consumed;
    /// 0 when the next byte starts a fresh instruction.
    pub k: u8,
    /// The opcode byte of the instruction being decoded.
    pub op: u8,
    /// The big-endian accumulator for a multi-byte address or immediate.
    pub acc: u32,
}

impl Cursor {
    /// The counter never passes 5: the accumulate phase resets it at its
    /// completion thresholds.
    pub open spec fn wf(self) -> bool {
        self.k <= 5
    }
}

/// The cursor a decode pass starts from: no instruction underway.
pub open spec fn init_cursor() -> Cursor {
    Cursor { k: 0, op: 0, acc: 0 }
}

/// The line emitted for a `HALT` opcode at byte offset `off`.
pub open spec fn halt_line(off: nat) -> Seq<char> {
    spec_hex(off, 2) + ": HALT\n"@
}

/// The label fragment emitted for a known multi-byte opcode at offset
/// `off`: the offset, the mnemonic, and no line break yet.
pub open spec fn opcode_label(off: nat, op: u8) -> Seq<char> {
    spec_hex(off, 2) + (if op == 0x30 {
        ": MOV "@
    } else if op == 0x60 {
        ": ADD "@
    } else if op == 0x61 {
        ": SUB "@
    } else if op == 0x62 {
        ": AND "@
    } else if op == 0x70 {
        ": JMP "@
    } else {
        ": JLE "@
    })
}

/// The notice emitted for an unrecognized opcode byte.
pub open spec fn error_line(b: u8) -> Seq<char> {
    "error: don't know what '"@ + spec_hex(b as nat, 2) + "' is\n"@
}

/// The fragment emitted for `MOV`'s packed register-pair byte: high nibble,
/// low nibble, and no line break yet.
pub open spec fn mov_regs(b: u8) -> Seq<char> {
    "r"@ + spec_hex((b >> 4) as nat, 1) + " & r"@ + spec_hex((b & 0xf) as nat, 1) + " <= "@
}

/// The fragment that completes an `ADD`/`SUB`/`AND` line: the packed
/// register pair and the line break.
pub open spec fn alu_regs(b: u8) -> Seq<char> {
    "r"@ + spec_hex((b >> 4) as nat, 1) + ", r"@ + spec_hex((b & 0xf) as nat, 1) + "\n"@
}

/// The fragment that completes a multi-byte instruction: the accumulator as
/// an eight-digit zero-padded hex value and the line break.
pub open spec fn acc_line(v: u32) -> Seq<char> {
    spec_hex(v as nat, 8) + "\n"@
}

/// One transition of the decoder: from cursor `st`, consume the byte `b`
/// that stands at offset `off`, yielding the next cursor and the emitted
/// text fragment (empty when nothing is emitted).
pub open spec fn spec_step(st: Cursor, off: nat, b: u8) -> (Cursor, Seq<char>) {
    if st.k == 0 {
        // Phase OPCODE: `b` is the opcode; the accumulator resets with it.
        if b == 0x00 {
            (Cursor { k: 0, op: b, acc: 0 }, halt_line(off))
        } else if b == 0x30 || b == 0x60 || b == 0x61 || b == 0x62 || b == 0x70 || b == 0x71 {
            (Cursor { k: 1, op: b, acc: 0 }, opcode_label(off, b))
        } else {
            (Cursor { k: 0, op: b, acc: 0 }, error_line(b))
        }
    } else if st.k == 1 {
        // Phase OPERAND-FIRST: `b` is a register pair or the high address byte.
        if st.op == 0x30 {
            (Cursor { k: 2, op: st.op, acc: st.acc }, mov_regs(b))
        } else if st.op == 0x60 || st.op == 0x61 || st.op == 0x62 {
            (Cursor { k: 0, op: st.op, acc: st.acc }, alu_regs(b))
        } else if st.op == 0x70 || st.op == 0x71 {
            (Cursor { k: 2, op: st.op, acc: b as u32 }, Seq::empty())
        } else {
            (Cursor { k: 0, op: st.op, acc: st.acc }, Seq::empty())
        }
    } else {
        // Phase ACCUMULATE: fold `b` into the accumulator; at the completion
        // threshold (counter 5 for the 0x7x opcodes, 6 otherwise) emit the
        // value and start the next instruction afresh.
        let acc = (st.acc << 8) | (b as u32);
        let k = st.k + 1;
        if ((st.op & 0x70) == 0x70 && k == 5) || k == 6 {
            (Cursor { k: 0, op: st.op, acc }, acc_line(acc))
        } else {
            (Cursor { k: k as u8, op: st.op, acc }, Seq::empty())
        }
    }
}

/// All text the decoder emits for the bytes from position `i` on, starting
/// from cursor `st`; a trailing instruction the stream is too short to
/// complete emits nothing further.
pub open spec fn decode_from(bytes: Seq<u8>, i: nat, st: Cursor) -> Seq<char>
    decreases bytes.len() - i,
{
    if i >= bytes.len() {
        Seq::empty()
    } else {
        let r = spec_step(st, i, bytes[i as int]);
        r.1 + decode_from(bytes, i + 1, r.0)
    }
}

/// The full disassembly text of a byte stream.
pub open spec fn spec_decompile(bytes: Seq<u8>) -> Seq<char> {
    decode_from(bytes, 0, init_cursor())
}

/// One transition of the decoder on the byte `b` at offset `off`: the next
/// cursor and the text fragment emitted for this byte.
pub fn step(st: Cursor, off: usize, b: u8) -> (r: (Cursor, String))
    requires
        st.wf(),
    ensures
        r.0 == spec_step(st, off as nat, b).0,
        r.1@ == spec_step(st, off as nat, b).1,
        r.0.wf(),
{
    if st.k == 0 {
        if b == 0x00 {
            let mut s = hex_str(off as u64, 2);
            s.append(": HALT\n");
            (Cursor { k: 0, op: b, acc: 0 }, s)
        } else if b == 0x30 || b == 0x60 || b == 0x61 || b == 0x62 || b == 0x70 || b == 0x71 {
            let mut s = hex_str(off as u64, 2);
            s.append(
                if b == 0x30 {
                    ": MOV "
                } else if b == 0x60 {
                    ": ADD "
                } else if b == 0x61 {
                    ": SUB "
                } else if b == 0x62 {
                    ": AND "
                } else if b == 0x70 {
                    ": JMP "
                } else {
                    ": JLE "
                },
            );
            (Cursor { k: 1, op: b, acc: 0 }, s)
        } else {
            let mut s = String::from_str("error: don't know what '");
            s.append(hex_str(b as u64, 2).as_str());
            s.append("' is\n");
            (Cursor { k: 0, op: b, acc: 0 }, s)
        }
    } else if st.k == 1 {
        if st.op == 0x30 {
            let mut s = String::from_str("r");
            s.append(hex_str((b >> 4) as u64, 1).as_str());
            s.append(" & r");
            s.append(hex_str((b & 0xf) as u64, 1).as_str());
            s.append(" <= ");
            (Cursor { k: 2, op: st.op, acc: st.acc }, s)
        } else if st.op == 0x60 || st.op == 0x61 || st.op == 0x62 {
            let mut s = String::from_str("r");
            s.append(hex_str((b >> 4) as u64, 1).as_str());
            s.append(", r");
            s.append(hex_str((b & 0xf) as u64, 1).as_str());
            s.append("\n");
            (Cursor { k: 0, op: st.op, acc: st.acc }, s)
        } else if st.op == 0x70 || st.op == 0x71 {
            (Cursor { k: 2, op: st.op, acc: b as u32 }, String::new())
        } else {
            (Cursor { k: 0, op: st.op, acc: st.acc }, String::new())
        }
    } else {
        let acc = (st.acc << 8) | (b as u32);
        let k = st.k + 1;
        if ((st.op & 0x70) == 0x70 && k == 5) || k == 6 {
            let mut s = hex_str(acc as u64, 8);
            s.append("\n");
            (Cursor { k: 0, op: st.op, acc }, s)
        } else {
            (Cursor { k, op: st.op, acc }, String::new())
        }
    }
}

/// Disassemble a byte stream: one pass over the bytes, emitting for each
/// instruction its offset-annotated line (and for each unrecognized opcode
/// its error notice), concatenated in order.
pub fn decompile(bytes: Vec<u8>) -> (r: String)
    ensures
        r@ == spec_decompile(bytes@),
{
    let mut out = String::new();
    let mut st = Cursor { k: 0, op: 0, acc: 0 };
    let mut i: usize = 0;
    while i < bytes.len()
        invariant
            i <= bytes.len(),
            st.wf(),
            out@ + decode_from(bytes@, i as nat, st) == spec_decompile(bytes@),
        decreases bytes.len() - i,
    {
        let (st2, frag) = step(st, i, bytes[i]);
        proof {
            let r = spec_step(st, i as nat, bytes@[i as int]);
            assert(out@ + (r.1 + decode_from(bytes@, (i + 1) as nat, r.0)) =~= (out@ + r.1)
                + decode_from(bytes@, (i + 1) as nat, r.0));
        }
        out.append(frag.as_str());
        st = st2;
        i += 1;
    }
    out
}

/// From a cursor that awaits an opcode, the rest of the decode does not
/// depend on which opcode or accumulator value the cursor still holds: the
/// next byte starts a fresh instruction.
pub proof fn lemma_decode_fresh_cursor(bytes: Seq<u8>, i: nat, st1: Cursor, st2: Cursor)
    requires
        st1.k == 0,
        st2.k == 0,
    ensures
        decode_from(bytes, i, st1) == decode_from(bytes, i, st2),
{
    if i < bytes.len() {
        let r1 = spec_step(st1, i, bytes[i as int]);
        let r2 = spec_step(st2, i, bytes[i as int]);
        assert(r1 == r2);
    }
}

/// `HALT` consumes exactly one byte and emits exactly one line, wherever it
/// stands: the decode of the rest of the stream starts afresh at the very
/// next byte, and the emitted text is a single `'\n'`-terminated line.
pub proof fn lemma_halt_one_byte(bytes: Seq<u8>, i: nat, st: Cursor)
    requires
        st.k == 0,
        i < bytes.len(),
        bytes[i as int] == 0x00,
    ensures
        decode_from(bytes, i, st) == halt_line(i) + decode_from(
            bytes,
            (i + 1) as nat,
            init_cursor(),
        ),
        halt_line(i).len() > 0,
        halt_line(i)[halt_line(i).len() - 1] == '\n',
        forall|j: int| 0 <= j < halt_line(i).len() - 1 ==> halt_line(i)[j] != '\n',
{
    let r = spec_step(st, i, bytes[i as int]);
    lemma_decode_fresh_cursor(bytes, (i + 1) as nat, r.0, init_cursor());
    reveal_strlit(": HALT\n");
    lemma_spec_hex_chars(i, 2);
    let h = spec_hex(i, 2);
    assert forall|j: int| 0 <= j < halt_line(i).len() - 1 implies halt_line(i)[j] != '\n' by {
        if j < h.len() {
            assert(is_hex_char(h[j]));
        }
    }
}

/// `ADD`, `SUB` and `AND` consume exactly two bytes: the opcode and one
/// packed register-pair byte, after which the decode of the rest of the
/// stream starts afresh; the emitted text is the offset-annotated line with
/// the two register indices.
pub proof fn lemma_alu_two_bytes(bytes: Seq<u8>, i: nat, st: Cursor)
    requires
        st.k == 0,
        i + 1 < bytes.len(),
        bytes[i as int] == 0x60 || bytes[i as int] == 0x61 || bytes[i as int] == 0x62,
    ensures
        decode_from(bytes, i, st) == opcode_label(i, bytes[i as int]) + alu_regs(
            bytes[i + 1 as int],
        ) + decode_from(bytes, (i + 2) as nat, init_cursor()),
{
    let op = bytes[i as int];
    let r1 = spec_step(st, i, op);
    let r2 = spec_step(r1.0, (i + 1) as nat, bytes[i + 1 as int]);
    lemma_decode_fresh_cursor(bytes, (i + 2) as nat, r2.0, init_cursor());
    let rest = decode_from(bytes, (i + 2) as nat, init_cursor());
    assert(decode_from(bytes, i, st) == r1.1 + decode_from(bytes, i + 1, r1.0));
    assert(decode_from(bytes, i + 1, r1.0) == r2.1 + decode_from(bytes, i + 2, r2.0));
    assert(r1.1 + (r2.1 + rest) =~= (r1.1 + r2.1) + rest);
}

/// The address a jump carries: its four operand bytes assembled in
/// big-endian order.
pub open spec fn jump_addr(b1: u8, b2: u8, b3: u8, b4: u8) -> u32 {
    ((((((b1 as u32) << 8) | (b2 as u32)) << 8) | (b3 as u32)) << 8) | (b4 as u32)
}

/// `JMP` and `JLE` consume exactly five bytes: the opcode and a four-byte
/// big-endian address, after which the decode of the rest of the stream
/// starts afresh; the emitted text is the label followed by the eight-digit
/// address line.
pub proof fn lemma_jump_five_bytes(bytes: Seq<u8>, i: nat, st: Cursor)
    requires
        st.k == 0,
        i + 4 < bytes.len(),
        bytes[i as int] == 0x70 || bytes[i as int] == 0x71,
    ensures
        decode_from(bytes, i, st) == opcode_label(i, bytes[i as int]) + acc_line(
            jump_addr(bytes[i + 1 as int], bytes[i + 2 as int], bytes[i + 3 as int], bytes[i + 4 as int]),
        ) + decode_from(bytes, (i + 5) as nat, init_cursor()),
{
    let op = bytes[i as int];
    assert((0x70u8 & 0x70) == 0x70 && (0x71u8 & 0x70) == 0x70) by (bit_vector);
    let r1 = spec_step(st, i, op);
    let r2 = spec_step(r1.0, (i + 1) as nat, bytes[i + 1 as int]);
    let r3 = spec_step(r2.0, (i + 2) as nat, bytes[i + 2 as int]);
    let r4 = spec_step(r3.0, (i + 3) as nat, bytes[i + 3 as int]);
    let r5 = spec_step(r4.0, (i + 4) as nat, bytes[i + 4 as int]);
    lemma_decode_fresh_cursor(bytes, (i + 5) as nat, r5.0, init_cursor());
    let rest = decode_from(bytes, (i + 5) as nat, init_cursor());
    assert(decode_from(bytes, i, st) == r1.1 + decode_from(bytes, i + 1, r1.0));
    assert(decode_from(bytes, i + 1, r1.0) == r2.1 + decode_from(bytes, i + 2, r2.0));
    assert(decode_from(bytes, i + 2, r2.0) == r3.1 + decode_from(bytes, i + 3, r3.0));
    assert(decode_from(bytes, i + 3, r3.0) == r4.1 + decode_from(bytes, i + 4, r4.0));
    assert(decode_from(bytes, i + 4, r4.0) == r5.1 + decode_from(bytes, i + 5, r5.0));
    assert(r1.1 + (r2.1 + (r3.1 + (r4.1 + (r5.1 + rest)))) =~= (r1.1 + r5.1) + rest);
}

/// An unrecognized opcode byte emits its error notice and consumes only
/// itself: the decoder treats the very next byte as a fresh opcode.
pub proof fn lemma_unknown_opcode(bytes: Seq<u8>, i: nat, st: Cursor)
    requires
        st.k == 0,
        i < bytes.len(),
        bytes[i as int] != 0x00,
        bytes[i as int] != 0x30,
        bytes[i as int] != 0x60,
        bytes[i as int] != 0x61,
        bytes[i as int] != 0x62,
        bytes[i as int] != 0x70,
        bytes[i as int] != 0x71,
    ensures
        decode_from(bytes, i, st) == error_line(bytes[i as int]) + decode_from(
            bytes,
            (i + 1) as nat,
            init_cursor(),
        ),
{
    let r = spec_step(st, i, bytes[i as int]);
    lemma_decode_fresh_cursor(bytes, (i + 1) as nat, r.0, init_cursor());
}

/// A stream that ends inside a jump's address emits the opcode label and
/// nothing more: no completed address line and no error.
pub proof fn lemma_truncated_jump(bytes: Seq<u8>, i: nat, st: Cursor)
    requires
        st.k == 0,
        i < bytes.len(),
        bytes.len() < i + 5,
        bytes[i as int] == 0x70 || bytes[i as int] == 0x71,
    ensures
        decode_from(bytes, i, st) == opcode_label(i, bytes[i as int]),
{
    let op = bytes[i as int];
    assert((0x70u8 & 0x70) == 0x70 && (0x71u8 & 0x70) == 0x70) by (bit_vector);
    let r1 = spec_step(st, i, op);
    assert(decode_from(bytes, i, st) == r1.1 + decode_from(bytes, i + 1, r1.0));
    if i + 1 < bytes.len() {
        let r2 = spec_step(r1.0, (i + 1) as nat, bytes[i + 1 as int]);
        assert(decode_from(bytes, i + 1, r1.0) == r2.1 + decode_from(bytes, i + 2, r2.0));
        if i + 2 < bytes.len() {
            let r3 = spec_step(r2.0, (i + 2) as nat, bytes[i + 2 as int]);
            assert(decode_from(bytes, i + 2, r2.0) == r3.1 + decode_from(bytes, i + 3, r3.0));
            if i + 3 < bytes.len() {
                let r4 = spec_step(r3.0, (i + 3) as nat, bytes[i + 3 as int]);
                assert(decode_from(bytes, i + 3, r3.0) == r4.1 + decode_from(bytes, i + 4, r4.0));
                assert(decode_from(bytes, i + 4, r4.0) == Seq::<char>::empty());
            }
        }
    }
    assert(decode_from(bytes, i, st) =~= r1.1);
}

} // verus!
