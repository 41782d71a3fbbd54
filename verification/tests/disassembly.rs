use disasm::decoder::{decompile, step, Cursor};

#[test]
fn halt_alone() {
    assert_eq!(decompile(vec![0x00]), "00: HALT\n");
}

#[test]
fn halt_consumes_one_byte_each() {
    assert_eq!(decompile(vec![0x00, 0x00, 0x00]), "00: HALT\n01: HALT\n02: HALT\n");
}

#[test]
fn add_register_pair() {
    assert_eq!(decompile(vec![0x60, 0x12]), "00: ADD r1, r2\n");
}

#[test]
fn sub_and_register_pairs() {
    assert_eq!(decompile(vec![0x61, 0xab]), "00: SUB ra, rb\n");
    assert_eq!(decompile(vec![0x62, 0xf0]), "00: AND rf, r0\n");
}

#[test]
fn alu_consumes_two_bytes() {
    assert_eq!(decompile(vec![0x60, 0xab, 0x00]), "00: ADD ra, rb\n02: HALT\n");
}

#[test]
fn jmp_four_byte_address() {
    assert_eq!(decompile(vec![0x70, 0x00, 0x00, 0x00, 0x10]), "00: JMP 00000010\n");
}

#[test]
fn jmp_consumes_five_bytes() {
    assert_eq!(
        decompile(vec![0x70, 0x00, 0x00, 0x00, 0x10, 0x00]),
        "00: JMP 00000010\n05: HALT\n"
    );
}

#[test]
fn jle_four_byte_address() {
    assert_eq!(decompile(vec![0x71, 0xde, 0xad, 0xbe, 0xef]), "00: JLE deadbeef\n");
}

#[test]
fn unknown_opcode_notice() {
    assert_eq!(
        decompile(vec![0x00, 0x00, 0x00, 0x00, 0x00, 0xff, 0x00]),
        "00: HALT\n01: HALT\n02: HALT\n03: HALT\n04: HALT\nerror: don't know what 'ff' is\n06: HALT\n"
    );
}

#[test]
fn unknown_opcode_step_at_offset_five() {
    let (st, text) = step(Cursor { k: 0, op: 0, acc: 0 }, 5, 0xff);
    assert_eq!(text, "error: don't know what 'ff' is\n");
    assert_eq!(st.k, 0);
}

#[test]
fn decoder_resumes_after_unknown_opcode() {
    assert_eq!(
        decompile(vec![0xff, 0x60, 0x12]),
        "error: don't know what 'ff' is\n01: ADD r1, r2\n"
    );
}

#[test]
fn truncated_jump_emits_label_only() {
    assert_eq!(decompile(vec![0x70, 0x00]), "00: JMP ");
    assert_eq!(decompile(vec![0x70]), "00: JMP ");
    assert_eq!(decompile(vec![0x71, 0x01, 0x02, 0x03]), "00: JLE ");
}

#[test]
fn truncated_alu_emits_label_only() {
    assert_eq!(decompile(vec![0x60]), "00: ADD ");
}

#[test]
fn mov_is_six_bytes_wide() {
    assert_eq!(
        decompile(vec![0x30, 0x12, 0xaa, 0xbb, 0xcc, 0xdd]),
        "00: MOV r1 & r2 <= aabbccdd\n"
    );
}

#[test]
fn mov_truncated_emits_register_fragment_only() {
    assert_eq!(decompile(vec![0x30, 0x12]), "00: MOV r1 & r2 <= ");
}

#[test]
fn offsets_grow_past_two_digits() {
    let bytes = vec![0x00; 257];
    let out = decompile(bytes);
    let mut expected = String::new();
    for i in 0..257usize {
        expected.push_str(&format!("{:02x}: HALT\n", i));
    }
    assert_eq!(out, expected);
}

#[test]
fn empty_stream_emits_nothing() {
    assert_eq!(decompile(Vec::new()), "");
}

#[test]
fn mixed_program_listing() {
    let bytes = vec![0x30, 0x12, 0x00, 0x00, 0x00, 0x00, 0x60, 0x01, 0x70, 0x00, 0x00, 0x00, 0x10];
    assert_eq!(
        decompile(bytes),
        "00: MOV r1 & r2 <= 00000000\n06: ADD r0, r1\n08: JMP 00000010\n"
    );
}
