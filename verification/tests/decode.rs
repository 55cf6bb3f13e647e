use chip8::parsing::decode;
use chip8::parsing::DecodeError;
use chip8::parsing::Instruction;

#[test]
fn decode_cls_ret_and_sys() {
    assert_eq!(decode([0x00, 0xE0]), Ok(Instruction::Cls));
    assert_eq!(decode([0x00, 0xEE]), Ok(Instruction::Ret));
    assert_eq!(decode([0x00, 0x00]), Ok(Instruction::Sys(0x000)));
    assert_eq!(decode([0x03, 0x45]), Ok(Instruction::Sys(0x345)));
    assert_eq!(decode([0x0E, 0xE0]), Ok(Instruction::Sys(0xEE0)));
}

#[test]
fn decode_fixed_examples() {
    assert_eq!(decode([0x12, 0x34]), Ok(Instruction::Jp(0x234)));
    assert_eq!(decode([0x6A, 0x07]), Ok(Instruction::LdV(0xA, 0x07)));
    assert_eq!(decode([0x8A, 0xB4]), Ok(Instruction::Add(0xA, 0xB)));
    assert_eq!(decode([0xD1, 0x2F]), Ok(Instruction::Drw(1, 2, 0xF)));
}

#[test]
fn decode_every_variant_canonically() {
    assert_eq!(decode([0x03, 0x45]), Ok(Instruction::Sys(0x345)));
    assert_eq!(decode([0x00, 0xE0]), Ok(Instruction::Cls));
    assert_eq!(decode([0x00, 0xEE]), Ok(Instruction::Ret));
    assert_eq!(decode([0x1A, 0xBC]), Ok(Instruction::Jp(0xABC)));
    assert_eq!(decode([0x2A, 0xBC]), Ok(Instruction::Call(0xABC)));
    assert_eq!(decode([0x31, 0x42]), Ok(Instruction::SeV(0x1, 0x42)));
    assert_eq!(decode([0x41, 0x42]), Ok(Instruction::SneV(0x1, 0x42)));
    assert_eq!(decode([0x51, 0x20]), Ok(Instruction::Se(0x1, 0x2)));
    assert_eq!(decode([0x61, 0x42]), Ok(Instruction::LdV(0x1, 0x42)));
    assert_eq!(decode([0x71, 0x42]), Ok(Instruction::AddV(0x1, 0x42)));
    assert_eq!(decode([0x81, 0x20]), Ok(Instruction::Ld(0x1, 0x2)));
    assert_eq!(decode([0x81, 0x21]), Ok(Instruction::Or(0x1, 0x2)));
    assert_eq!(decode([0x81, 0x22]), Ok(Instruction::And(0x1, 0x2)));
    assert_eq!(decode([0x81, 0x23]), Ok(Instruction::Xor(0x1, 0x2)));
    assert_eq!(decode([0x81, 0x24]), Ok(Instruction::Add(0x1, 0x2)));
    assert_eq!(decode([0x81, 0x25]), Ok(Instruction::Sub(0x1, 0x2)));
    assert_eq!(decode([0x81, 0x26]), Ok(Instruction::Shr(0x1)));
    assert_eq!(decode([0x81, 0x27]), Ok(Instruction::Subn(0x1, 0x2)));
    assert_eq!(decode([0x81, 0x2E]), Ok(Instruction::Shl(0x1)));
    assert_eq!(decode([0x91, 0x20]), Ok(Instruction::Sne(0x1, 0x2)));
    assert_eq!(decode([0xAA, 0xBC]), Ok(Instruction::LdI(0xABC)));
    assert_eq!(decode([0xBA, 0xBC]), Ok(Instruction::JpV0(0xABC)));
    assert_eq!(decode([0xC1, 0x42]), Ok(Instruction::Rnd(0x1, 0x42)));
    assert_eq!(decode([0xD1, 0x25]), Ok(Instruction::Drw(0x1, 0x2, 0x5)));
    assert_eq!(decode([0xE1, 0x9E]), Ok(Instruction::Skp(0x1)));
    assert_eq!(decode([0xE1, 0xA1]), Ok(Instruction::Sknp(0x1)));
    assert_eq!(decode([0xF1, 0x07]), Ok(Instruction::LdDt(0x1)));
    assert_eq!(decode([0xF1, 0x0A]), Ok(Instruction::LdK(0x1)));
    assert_eq!(decode([0xF1, 0x15]), Ok(Instruction::LdTd(0x1)));
    assert_eq!(decode([0xF1, 0x18]), Ok(Instruction::LdSt(0x1)));
    assert_eq!(decode([0xF1, 0x1E]), Ok(Instruction::AddI(0x1)));
    assert_eq!(decode([0xF1, 0x29]), Ok(Instruction::LdS(0x1)));
    assert_eq!(decode([0xF1, 0x33]), Ok(Instruction::LdBCD(0x1)));
    assert_eq!(decode([0xF1, 0x55]), Ok(Instruction::LdVM(0x1)));
    assert_eq!(decode([0xF1, 0x65]), Ok(Instruction::LdMV(0x1)));
}

#[test]
fn decode_failures_carry_the_bytes() {
    assert_eq!(decode([0x51, 0x21]), Err(DecodeError { b0: 0x51, b1: 0x21 }));
    assert_eq!(decode([0x91, 0x27]), Err(DecodeError { b0: 0x91, b1: 0x27 }));
    assert_eq!(decode([0x81, 0x28]), Err(DecodeError { b0: 0x81, b1: 0x28 }));
    assert_eq!(decode([0x81, 0x2F]), Err(DecodeError { b0: 0x81, b1: 0x2F }));
    assert_eq!(decode([0xE1, 0x9F]), Err(DecodeError { b0: 0xE1, b1: 0x9F }));
    assert_eq!(decode([0xF1, 0x66]), Err(DecodeError { b0: 0xF1, b1: 0x66 }));
    assert_eq!(decode([0xF1, 0x00]), Err(DecodeError { b0: 0xF1, b1: 0x00 }));
}

#[test]
fn decode_is_total_and_deterministic() {
    for hi in 0..=255u8 {
        for lo in 0..=255u8 {
            let first = decode([hi, lo]);
            let second = decode([hi, lo]);
            assert_eq!(first, second);
            match first {
                Ok(_) => {}
                Err(e) => {
                    assert_eq!(e.b0, hi);
                    assert_eq!(e.b1, lo);
                }
            }
        }
    }
}

#[test]
fn from_slice_one_reads_the_first_opcode() {
    assert_eq!(
        Instruction::from_slice_one(&[0x12, 0x34, 0x56]),
        Some(Instruction::Jp(0x234))
    );
    assert_eq!(Instruction::from_slice_one(&[0x51, 0x21]), None);
    assert_eq!(Instruction::from_slice_one(&[0x12]), None);
    assert_eq!(Instruction::from_slice_one(&[]), None);
}

#[test]
fn from_slice_decodes_a_whole_stream() {
    let bytes = [0x60, 0x05, 0x61, 0x03, 0x80, 0x14, 0x00, 0xEE];
    let listing = Instruction::from_slice(&bytes);
    assert_eq!(
        listing,
        vec![
            Instruction::LdV(0, 5),
            Instruction::LdV(1, 3),
            Instruction::Add(0, 1),
            Instruction::Ret,
        ]
    );
}

#[test]
fn from_slice_of_empty_stream_is_empty() {
    let listing = Instruction::from_slice(&[]);
    assert!(listing.is_empty());
}
