//! The instruction set of the class-file code array: one variant per opcode, with typed
//! operands, and the byte form of each instruction at a given code offset.
use vstd::prelude::*;
use crate::bytes::{be16, be32};

verus! {

/// One instruction of a method's code array.
#[allow(non_camel_case_types)]
#[derive(Debug)]
pub enum Instruction {
    AALOAD,
    AASTORE,
    ACONST_NULL,
    ALOAD(u8),
    ALOAD_0,
    ALOAD_1,
    ALOAD_2,
    ALOAD_3,
    ANEWARRAY(u16),
    ARETURN,
    ARRAYLENGTH,
    ASTORE(u8),
    ASTORE_0,
    ASTORE_1,
    ASTORE_2,
    ASTORE_3,
    ATHROW,
    BALOAD,
    BASTORE,
    BIPUSH(u8),
    CALOAD,
    CASTORE,
    CHECKCAST(u16),
    D2F,
    D2I,
    D2L,
    DADD,
    DALOAD,
    DASTORE,
    DCMPL,
    DCMPG,
    DCONST_0,
    DCONST_1,
    DDIV,
    DLOAD(u8),
    DLOAD_0,
    DLOAD_1,
    DLOAD_2,
    DLOAD_3,
    DMUL,
    DNEG,
    DREM,
    DRETURN,
    DSTORE(u8),
    DSTORE_0,
    DSTORE_1,
    DSTORE_2,
    DSTORE_3,
    DSUB,
    DUP,
    DUP_X1,
    DUP_X2,
    DUP2,
    DUP2_X1,
    DUP2_X2,
    F2D,
    F2I,
    F2L,
    FADD,
    FALOAD,
    FASTORE,
    FCMPL,
    FCMPG,
    FCONST_0,
    FCONST_1,
    FCONST_2,
    FDIV,
    FLOAD(u8),
    FLOAD_0,
    FLOAD_1,
    FLOAD_2,
    FLOAD_3,
    FMUL,
    FNEG,
    FREM,
    FRETURN,
    FSTORE(u8),
    FSTORE_0,
    FSTORE_1,
    FSTORE_2,
    FSTORE_3,
    FSUB,
    GETFIELD(u16),
    GETSTATIC(u16),
    GOTO(i16),
    GOTO_W(i32),
    I2B,
    I2C,
    I2D,
    I2F,
    I2L,
    I2S,
    IADD,
    IALOAD,
    IAND,
    IASTORE,
    ICONST_M1,
    ICONST_0,
    ICONST_1,
    ICONST_2,
    ICONST_3,
    ICONST_4,
    ICONST_5,
    IDIV,
    IF_ACMPEQ(i16),
    IF_ACMPNE(i16),
    IF_ICMPEQ(i16),
    IF_ICMPNE(i16),
    IF_ICMPLT(i16),
    IF_ICMPGE(i16),
    IF_ICMPGT(i16),
    IF_ICMPLE(i16),
    IFEQ(i16),
    IFNE(i16),
    IFLT(i16),
    IFGE(i16),
    IFGT(i16),
    IFLE(i16),
    IFNONNULL(i16),
    IFNULL(i16),
    IINC(u8, i8),
    ILOAD(u8),
    ILOAD_0,
    ILOAD_1,
    ILOAD_2,
    ILOAD_3,
    IMUL,
    INEG,
    INSTANCEOF(u16),
    INVOKEDYNAMIC(u16),
    INVOKEINTERFACE(u16, u8),
    INVOKESPECIAL(u16),
    INVOKESTATIC(u16),
    INVOKEVIRTUAL(u16),
    IOR,
    IREM,
    IRETURN,
    ISHL,
    ISHR,
    ISTORE(u8),
    ISTORE_0,
    ISTORE_1,
    ISTORE_2,
    ISTORE_3,
    ISUB,
    IUSHR,
    IXOR,
    JSR(i16),
    JSR_W(i32),
    L2D,
    L2F,
    L2I,
    LADD,
    LALOAD,
    LAND,
    LASTORE,
    LCMP,
    LCONST_0,
    LCONST_1,
    LDC(u8),
    LDC_W(u16),
    LDC2_W(u16),
    LDIV,
    LLOAD(u8),
    LLOAD_0,
    LLOAD_1,
    LLOAD_2,
    LLOAD_3,
    LMUL,
    LNEG,
    LOOKUPSWITCH(i32, Vec<(i32, i32)>),
    LOR,
    LREM,
    LRETURN,
    LSHL,
    LSHR,
    LSTORE(u8),
    LSTORE_0,
    LSTORE_1,
    LSTORE_2,
    LSTORE_3,
    LSUB,
    LUSHR,
    LXOR,
    MONITORENTER,
    MONITOREXIT,
    MULTIANEWARRAY(u16, u8),
    NEW(u16),
    NEWARRAY(u8),
    NOP,
    POP,
    POP2,
    PUTFIELD(u16),
    PUTSTATIC(u16),
    RET(u8),
    RETURN,
    SALOAD,
    SASTORE,
    SIPUSH(u16),
    SWAP,
    TABLESWITCH(i32, i32, i32, Vec<i32>),
    IINC_W(u16, i16),
    ILOAD_W(u16),
    FLOAD_W(u16),
    ALOAD_W(u16),
    LLOAD_W(u16),
    DLOAD_W(u16),
    ISTORE_W(u16),
    FSTORE_W(u16),
    ASTORE_W(u16),
    LSTORE_W(u16),
    DSTORE_W(u16),
    RET_W(u16),
    PADDED_INSTRUCTION(usize),
    WTF(u32),
}

/// Number of zero bytes that align the operands of a switch whose opcode sits at `offset`.
pub open spec fn switch_padding(offset: nat) -> nat {
    ((4 - ((offset + 1) % 4) as int) % 4) as nat
}

pub open spec fn zeros(n: nat) -> Seq<u8> {
    Seq::new(n, |k: int| 0u8)
}

/// The bytes of a lookup table of (match, target) pairs.
pub open spec fn pair_bytes(pairs: Seq<(i32, i32)>) -> Seq<u8>
    decreases pairs.len(),
{
    if pairs.len() == 0 {
        Seq::empty()
    } else {
        pair_bytes(pairs.drop_last()) + be32(pairs.last().0 as u32) + be32(pairs.last().1 as u32)
    }
}

/// The bytes of a jump table.
pub open spec fn i32_bytes(targets: Seq<i32>) -> Seq<u8>
    decreases targets.len(),
{
    if targets.len() == 0 {
        Seq::empty()
    } else {
        i32_bytes(targets.drop_last()) + be32(targets.last() as u32)
    }
}

/// The opcode byte that starts an instruction (`wide` for the widened forms).
pub open spec fn spec_opcode(i: Instruction) -> u8 {
    match i {
        Instruction::AALOAD => 0x32u8,
        Instruction::AASTORE => 0x53u8,
        Instruction::ACONST_NULL => 0x01u8,
        Instruction::ALOAD(..) => 0x19u8,
        Instruction::ALOAD_0 => 0x2au8,
        Instruction::ALOAD_1 => 0x2bu8,
        Instruction::ALOAD_2 => 0x2cu8,
        Instruction::ALOAD_3 => 0x2du8,
        Instruction::ANEWARRAY(..) => 0xbdu8,
        Instruction::ARETURN => 0xb0u8,
        Instruction::ARRAYLENGTH => 0xbeu8,
        Instruction::ASTORE(..) => 0x3au8,
        Instruction::ASTORE_0 => 0x4bu8,
        Instruction::ASTORE_1 => 0x4cu8,
        Instruction::ASTORE_2 => 0x4du8,
        Instruction::ASTORE_3 => 0x4eu8,
        Instruction::ATHROW => 0xbfu8,
        Instruction::BALOAD => 0x33u8,
        Instruction::BASTORE => 0x54u8,
        Instruction::BIPUSH(..) => 0x10u8,
        Instruction::CALOAD => 0x34u8,
        Instruction::CASTORE => 0x55u8,
        Instruction::CHECKCAST(..) => 0xc0u8,
        Instruction::D2F => 0x90u8,
        Instruction::D2I => 0x8eu8,
        Instruction::D2L => 0x8fu8,
        Instruction::DADD => 0x63u8,
        Instruction::DALOAD => 0x31u8,
        Instruction::DASTORE => 0x52u8,
        Instruction::DCMPL => 0x97u8,
        Instruction::DCMPG => 0x98u8,
        Instruction::DCONST_0 => 0x0eu8,
        Instruction::DCONST_1 => 0x0fu8,
        Instruction::DDIV => 0x6fu8,
        Instruction::DLOAD(..) => 0x18u8,
        Instruction::DLOAD_0 => 0x26u8,
        Instruction::DLOAD_1 => 0x27u8,
        Instruction::DLOAD_2 => 0x28u8,
        Instruction::DLOAD_3 => 0x29u8,
        Instruction::DMUL => 0x6bu8,
        Instruction::DNEG => 0x77u8,
        Instruction::DREM => 0x73u8,
        Instruction::DRETURN => 0xafu8,
        Instruction::DSTORE(..) => 0x39u8,
        Instruction::DSTORE_0 => 0x47u8,
        Instruction::DSTORE_1 => 0x48u8,
        Instruction::DSTORE_2 => 0x49u8,
        Instruction::DSTORE_3 => 0x4au8,
        Instruction::DSUB => 0x67u8,
        Instruction::DUP => 0x59u8,
        Instruction::DUP_X1 => 0x5au8,
        Instruction::DUP_X2 => 0x5bu8,
        Instruction::DUP2 => 0x5cu8,
        Instruction::DUP2_X1 => 0x5du8,
        Instruction::DUP2_X2 => 0x5eu8,
        Instruction::F2D => 0x8du8,
        Instruction::F2I => 0x8bu8,
        Instruction::F2L => 0x8cu8,
        Instruction::FADD => 0x62u8,
        Instruction::FALOAD => 0x30u8,
        Instruction::FASTORE => 0x51u8,
        Instruction::FCMPL => 0x95u8,
        Instruction::FCMPG => 0x96u8,
        Instruction::FCONST_0 => 0x0bu8,
        Instruction::FCONST_1 => 0x0cu8,
        Instruction::FCONST_2 => 0x0du8,
        Instruction::FDIV => 0x6eu8,
        Instruction::FLOAD(..) => 0x17u8,
        Instruction::FLOAD_0 => 0x22u8,
        Instruction::FLOAD_1 => 0x23u8,
        Instruction::FLOAD_2 => 0x24u8,
        Instruction::FLOAD_3 => 0x25u8,
        Instruction::FMUL => 0x6au8,
        Instruction::FNEG => 0x76u8,
        Instruction::FREM => 0x72u8,
        Instruction::FRETURN => 0xaeu8,
        Instruction::FSTORE(..) => 0x38u8,
        Instruction::FSTORE_0 => 0x43u8,
        Instruction::FSTORE_1 => 0x44u8,
        Instruction::FSTORE_2 => 0x45u8,
        Instruction::FSTORE_3 => 0x46u8,
        Instruction::FSUB => 0x66u8,
        Instruction::GETFIELD(..) => 0xb4u8,
        Instruction::GETSTATIC(..) => 0xb2u8,
        Instruction::GOTO(..) => 0xa7u8,
        Instruction::GOTO_W(..) => 0xc8u8,
        Instruction::I2B => 0x91u8,
        Instruction::I2C => 0x92u8,
        Instruction::I2D => 0x87u8,
        Instruction::I2F => 0x86u8,
        Instruction::I2L => 0x85u8,
        Instruction::I2S => 0x93u8,
        Instruction::IADD => 0x60u8,
        Instruction::IALOAD => 0x2eu8,
        Instruction::IAND => 0x7eu8,
        Instruction::IASTORE => 0x4fu8,
        Instruction::ICONST_M1 => 0x02u8,
        Instruction::ICONST_0 => 0x03u8,
        Instruction::ICONST_1 => 0x04u8,
        Instruction::ICONST_2 => 0x05u8,
        Instruction::ICONST_3 => 0x06u8,
        Instruction::ICONST_4 => 0x07u8,
        Instruction::ICONST_5 => 0x08u8,
        Instruction::IDIV => 0x6cu8,
        Instruction::IF_ACMPEQ(..) => 0xa5u8,
        Instruction::IF_ACMPNE(..) => 0xa6u8,
        Instruction::IF_ICMPEQ(..) => 0x9fu8,
        Instruction::IF_ICMPNE(..) => 0xa0u8,
        Instruction::IF_ICMPLT(..) => 0xa1u8,
        Instruction::IF_ICMPGE(..) => 0xa2u8,
        Instruction::IF_ICMPGT(..) => 0xa3u8,
        Instruction::IF_ICMPLE(..) => 0xa4u8,
        Instruction::IFEQ(..) => 0x99u8,
        Instruction::IFNE(..) => 0x9au8,
        Instruction::IFLT(..) => 0x9bu8,
        Instruction::IFGE(..) => 0x9cu8,
        Instruction::IFGT(..) => 0x9du8,
        Instruction::IFLE(..) => 0x9eu8,
        Instruction::IFNONNULL(..) => 0xc7u8,
        Instruction::IFNULL(..) => 0xc6u8,
        Instruction::IINC(..) => 0x84u8,
        Instruction::ILOAD(..) => 0x15u8,
        Instruction::ILOAD_0 => 0x1au8,
        Instruction::ILOAD_1 => 0x1bu8,
        Instruction::ILOAD_2 => 0x1cu8,
        Instruction::ILOAD_3 => 0x1du8,
        Instruction::IMUL => 0x68u8,
        Instruction::INEG => 0x74u8,
        Instruction::INSTANCEOF(..) => 0xc1u8,
        Instruction::INVOKEDYNAMIC(..) => 0xbau8,
        Instruction::INVOKEINTERFACE(..) => 0xb9u8,
        Instruction::INVOKESPECIAL(..) => 0xb7u8,
        Instruction::INVOKESTATIC(..) => 0xb8u8,
        Instruction::INVOKEVIRTUAL(..) => 0xb6u8,
        Instruction::IOR => 0x80u8,
        Instruction::IREM => 0x70u8,
        Instruction::IRETURN => 0xacu8,
        Instruction::ISHL => 0x78u8,
        Instruction::ISHR => 0x7au8,
        Instruction::ISTORE(..) => 0x36u8,
        Instruction::ISTORE_0 => 0x3bu8,
        Instruction::ISTORE_1 => 0x3cu8,
        Instruction::ISTORE_2 => 0x3du8,
        Instruction::ISTORE_3 => 0x3eu8,
        Instruction::ISUB => 0x64u8,
        Instruction::IUSHR => 0x7cu8,
        Instruction::IXOR => 0x82u8,
        Instruction::JSR(..) => 0xa8u8,
        Instruction::JSR_W(..) => 0xc9u8,
        Instruction::L2D => 0x8au8,
        Instruction::L2F => 0x89u8,
        Instruction::L2I => 0x88u8,
        Instruction::LADD => 0x61u8,
        Instruction::LALOAD => 0x2fu8,
        Instruction::LAND => 0x7fu8,
        Instruction::LASTORE => 0x50u8,
        Instruction::LCMP => 0x94u8,
        Instruction::LCONST_0 => 0x09u8,
        Instruction::LCONST_1 => 0x0au8,
        Instruction::LDC(..) => 0x12u8,
        Instruction::LDC_W(..) => 0x13u8,
        Instruction::LDC2_W(..) => 0x14u8,
        Instruction::LDIV => 0x6du8,
        Instruction::LLOAD(..) => 0x16u8,
        Instruction::LLOAD_0 => 0x1eu8,
        Instruction::LLOAD_1 => 0x1fu8,
        Instruction::LLOAD_2 => 0x20u8,
        Instruction::LLOAD_3 => 0x21u8,
        Instruction::LMUL => 0x69u8,
        Instruction::LNEG => 0x75u8,
        Instruction::LOOKUPSWITCH(..) => 0xabu8,
        Instruction::LOR => 0x81u8,
        Instruction::LREM => 0x71u8,
        Instruction::LRETURN => 0xadu8,
        Instruction::LSHL => 0x79u8,
        Instruction::LSHR => 0x7bu8,
        Instruction::LSTORE(..) => 0x37u8,
        Instruction::LSTORE_0 => 0x3fu8,
        Instruction::LSTORE_1 => 0x40u8,
        Instruction::LSTORE_2 => 0x41u8,
        Instruction::LSTORE_3 => 0x42u8,
        Instruction::LSUB => 0x65u8,
        Instruction::LUSHR => 0x7du8,
        Instruction::LXOR => 0x83u8,
        Instruction::MONITORENTER => 0xc2u8,
        Instruction::MONITOREXIT => 0xc3u8,
        Instruction::MULTIANEWARRAY(..) => 0xc5u8,
        Instruction::NEW(..) => 0xbbu8,
        Instruction::NEWARRAY(..) => 0xbcu8,
        Instruction::NOP => 0x00u8,
        Instruction::POP => 0x57u8,
        Instruction::POP2 => 0x58u8,
        Instruction::PUTFIELD(..) => 0xb5u8,
        Instruction::PUTSTATIC(..) => 0xb3u8,
        Instruction::RET(..) => 0xa9u8,
        Instruction::RETURN => 0xb1u8,
        Instruction::SALOAD => 0x35u8,
        Instruction::SASTORE => 0x56u8,
        Instruction::SIPUSH(..) => 0x11u8,
        Instruction::SWAP => 0x5fu8,
        Instruction::TABLESWITCH(..) => 0xaau8,
        Instruction::IINC_W(..) => 0xc4u8,
        Instruction::ILOAD_W(..) => 0xc4u8,
        Instruction::FLOAD_W(..) => 0xc4u8,
        Instruction::ALOAD_W(..) => 0xc4u8,
        Instruction::LLOAD_W(..) => 0xc4u8,
        Instruction::DLOAD_W(..) => 0xc4u8,
        Instruction::ISTORE_W(..) => 0xc4u8,
        Instruction::FSTORE_W(..) => 0xc4u8,
        Instruction::ASTORE_W(..) => 0xc4u8,
        Instruction::LSTORE_W(..) => 0xc4u8,
        Instruction::DSTORE_W(..) => 0xc4u8,
        Instruction::RET_W(..) => 0xc4u8,
        Instruction::PADDED_INSTRUCTION(_) => 0x00u8,
        Instruction::WTF(op) => op as u8,
    }
}

/// The bytes that follow the opcode, for an opcode at code offset `offset`.
pub open spec fn spec_operands(i: Instruction, offset: nat) -> Seq<u8> {
    match i {
        Instruction::ALOAD(x) => seq![x],
        Instruction::ASTORE(x) => seq![x],
        Instruction::BIPUSH(x) => seq![x],
        Instruction::DLOAD(x) => seq![x],
        Instruction::DSTORE(x) => seq![x],
        Instruction::FLOAD(x) => seq![x],
        Instruction::FSTORE(x) => seq![x],
        Instruction::ILOAD(x) => seq![x],
        Instruction::ISTORE(x) => seq![x],
        Instruction::LDC(x) => seq![x],
        Instruction::LLOAD(x) => seq![x],
        Instruction::LSTORE(x) => seq![x],
        Instruction::NEWARRAY(x) => seq![x],
        Instruction::RET(x) => seq![x],
        Instruction::ANEWARRAY(x) => be16(x),
        Instruction::CHECKCAST(x) => be16(x),
        Instruction::GETFIELD(x) => be16(x),
        Instruction::GETSTATIC(x) => be16(x),
        Instruction::INSTANCEOF(x) => be16(x),
        Instruction::INVOKESPECIAL(x) => be16(x),
        Instruction::INVOKESTATIC(x) => be16(x),
        Instruction::INVOKEVIRTUAL(x) => be16(x),
        Instruction::LDC_W(x) => be16(x),
        Instruction::LDC2_W(x) => be16(x),
        Instruction::NEW(x) => be16(x),
        Instruction::PUTFIELD(x) => be16(x),
        Instruction::PUTSTATIC(x) => be16(x),
        Instruction::SIPUSH(x) => be16(x),
        Instruction::GOTO(x) => be16(x as u16),
        Instruction::IF_ACMPEQ(x) => be16(x as u16),
        Instruction::IF_ACMPNE(x) => be16(x as u16),
        Instruction::IF_ICMPEQ(x) => be16(x as u16),
        Instruction::IF_ICMPNE(x) => be16(x as u16),
        Instruction::IF_ICMPLT(x) => be16(x as u16),
        Instruction::IF_ICMPGE(x) => be16(x as u16),
        Instruction::IF_ICMPGT(x) => be16(x as u16),
        Instruction::IF_ICMPLE(x) => be16(x as u16),
        Instruction::IFEQ(x) => be16(x as u16),
        Instruction::IFNE(x) => be16(x as u16),
        Instruction::IFLT(x) => be16(x as u16),
        Instruction::IFGE(x) => be16(x as u16),
        Instruction::IFGT(x) => be16(x as u16),
        Instruction::IFLE(x) => be16(x as u16),
        Instruction::IFNONNULL(x) => be16(x as u16),
        Instruction::IFNULL(x) => be16(x as u16),
        Instruction::JSR(x) => be16(x as u16),
        Instruction::GOTO_W(x) => be32(x as u32),
        Instruction::JSR_W(x) => be32(x as u32),
        Instruction::IINC(x, c) => seq![x, c as u8],
        Instruction::INVOKEDYNAMIC(x) => be16(x) + seq![0u8, 0u8],
        Instruction::INVOKEINTERFACE(x, n) => be16(x) + seq![n, 0u8],
        Instruction::MULTIANEWARRAY(x, d) => be16(x) + seq![d],
        Instruction::LOOKUPSWITCH(dflt, pairs) => zeros(switch_padding(offset)) + be32(dflt as u32) + be32(pairs@.len() as u32) + pair_bytes(pairs@),
        Instruction::TABLESWITCH(dflt, low, high, targets) => zeros(switch_padding(offset)) + be32(dflt as u32) + be32(low as u32) + be32(high as u32) + i32_bytes(targets@),
        Instruction::ILOAD_W(x) => seq![0x15u8] + be16(x),
        Instruction::FLOAD_W(x) => seq![0x17u8] + be16(x),
        Instruction::ALOAD_W(x) => seq![0x19u8] + be16(x),
        Instruction::LLOAD_W(x) => seq![0x16u8] + be16(x),
        Instruction::DLOAD_W(x) => seq![0x18u8] + be16(x),
        Instruction::ISTORE_W(x) => seq![0x36u8] + be16(x),
        Instruction::FSTORE_W(x) => seq![0x38u8] + be16(x),
        Instruction::ASTORE_W(x) => seq![0x3au8] + be16(x),
        Instruction::LSTORE_W(x) => seq![0x37u8] + be16(x),
        Instruction::DSTORE_W(x) => seq![0x39u8] + be16(x),
        Instruction::RET_W(x) => seq![0xa9u8] + be16(x),
        Instruction::IINC_W(x, c) => seq![0x84u8] + be16(x) + be16(c as u16),
        _ => Seq::empty(),
    }
}

/// The bytes of an instruction whose opcode sits at code offset `offset`.
pub open spec fn spec_encode_instruction(i: Instruction, offset: nat) -> Seq<u8> {
    match i {
        Instruction::PADDED_INSTRUCTION(n) => zeros(n as nat),
        _ => seq![spec_opcode(i)] + spec_operands(i, offset),
    }
}

/// The encoded length of an instruction at code offset `offset`, in closed form.
pub open spec fn spec_instruction_length(i: Instruction, offset: nat) -> nat {
    match i {
        Instruction::ALOAD(_) => 2,
        Instruction::ASTORE(_) => 2,
        Instruction::BIPUSH(_) => 2,
        Instruction::DLOAD(_) => 2,
        Instruction::DSTORE(_) => 2,
        Instruction::FLOAD(_) => 2,
        Instruction::FSTORE(_) => 2,
        Instruction::ILOAD(_) => 2,
        Instruction::ISTORE(_) => 2,
        Instruction::LDC(_) => 2,
        Instruction::LLOAD(_) => 2,
        Instruction::LSTORE(_) => 2,
        Instruction::NEWARRAY(_) => 2,
        Instruction::RET(_) => 2,
        Instruction::ANEWARRAY(_) => 3,
        Instruction::CHECKCAST(_) => 3,
        Instruction::GETFIELD(_) => 3,
        Instruction::GETSTATIC(_) => 3,
        Instruction::INSTANCEOF(_) => 3,
        Instruction::INVOKESPECIAL(_) => 3,
        Instruction::INVOKESTATIC(_) => 3,
        Instruction::INVOKEVIRTUAL(_) => 3,
        Instruction::LDC_W(_) => 3,
        Instruction::LDC2_W(_) => 3,
        Instruction::NEW(_) => 3,
        Instruction::PUTFIELD(_) => 3,
        Instruction::PUTSTATIC(_) => 3,
        Instruction::SIPUSH(_) => 3,
        Instruction::GOTO(_) => 3,
        Instruction::IF_ACMPEQ(_) => 3,
        Instruction::IF_ACMPNE(_) => 3,
        Instruction::IF_ICMPEQ(_) => 3,
        Instruction::IF_ICMPNE(_) => 3,
        Instruction::IF_ICMPLT(_) => 3,
        Instruction::IF_ICMPGE(_) => 3,
        Instruction::IF_ICMPGT(_) => 3,
        Instruction::IF_ICMPLE(_) => 3,
        Instruction::IFEQ(_) => 3,
        Instruction::IFNE(_) => 3,
        Instruction::IFLT(_) => 3,
        Instruction::IFGE(_) => 3,
        Instruction::IFGT(_) => 3,
        Instruction::IFLE(_) => 3,
        Instruction::IFNONNULL(_) => 3,
        Instruction::IFNULL(_) => 3,
        Instruction::JSR(_) => 3,
        Instruction::GOTO_W(_) => 5,
        Instruction::JSR_W(_) => 5,
        Instruction::IINC(..) => 3,
        Instruction::INVOKEDYNAMIC(_) => 5,
        Instruction::INVOKEINTERFACE(..) => 5,
        Instruction::MULTIANEWARRAY(..) => 4,
        Instruction::LOOKUPSWITCH(_, pairs) => 9 + switch_padding(offset) + 8 * pairs@.len(),
        Instruction::TABLESWITCH(_, _, _, targets) => 13 + switch_padding(offset) + 4 * targets@.len(),
        Instruction::ILOAD_W(_) => 4,
        Instruction::FLOAD_W(_) => 4,
        Instruction::ALOAD_W(_) => 4,
        Instruction::LLOAD_W(_) => 4,
        Instruction::DLOAD_W(_) => 4,
        Instruction::ISTORE_W(_) => 4,
        Instruction::FSTORE_W(_) => 4,
        Instruction::ASTORE_W(_) => 4,
        Instruction::LSTORE_W(_) => 4,
        Instruction::DSTORE_W(_) => 4,
        Instruction::RET_W(_) => 4,
        Instruction::IINC_W(..) => 6,
        Instruction::PADDED_INSTRUCTION(n) => n as nat,
        _ => 1,
    }
}

/// True of the instructions that are their opcode byte alone.
pub open spec fn operand_free(i: Instruction) -> bool {
    match i {
        Instruction::ALOAD(..) => false,
        Instruction::ANEWARRAY(..) => false,
        Instruction::ASTORE(..) => false,
        Instruction::BIPUSH(..) => false,
        Instruction::CHECKCAST(..) => false,
        Instruction::DLOAD(..) => false,
        Instruction::DSTORE(..) => false,
        Instruction::FLOAD(..) => false,
        Instruction::FSTORE(..) => false,
        Instruction::GETFIELD(..) => false,
        Instruction::GETSTATIC(..) => false,
        Instruction::GOTO(..) => false,
        Instruction::GOTO_W(..) => false,
        Instruction::IF_ACMPEQ(..) => false,
        Instruction::IF_ACMPNE(..) => false,
        Instruction::IF_ICMPEQ(..) => false,
        Instruction::IF_ICMPNE(..) => false,
        Instruction::IF_ICMPLT(..) => false,
        Instruction::IF_ICMPGE(..) => false,
        Instruction::IF_ICMPGT(..) => false,
        Instruction::IF_ICMPLE(..) => false,
        Instruction::IFEQ(..) => false,
        Instruction::IFNE(..) => false,
        Instruction::IFLT(..) => false,
        Instruction::IFGE(..) => false,
        Instruction::IFGT(..) => false,
        Instruction::IFLE(..) => false,
        Instruction::IFNONNULL(..) => false,
        Instruction::IFNULL(..) => false,
        Instruction::IINC(..) => false,
        Instruction::ILOAD(..) => false,
        Instruction::INSTANCEOF(..) => false,
        Instruction::INVOKEDYNAMIC(..) => false,
        Instruction::INVOKEINTERFACE(..) => false,
        Instruction::INVOKESPECIAL(..) => false,
        Instruction::INVOKESTATIC(..) => false,
        Instruction::INVOKEVIRTUAL(..) => false,
        Instruction::ISTORE(..) => false,
        Instruction::JSR(..) => false,
        Instruction::JSR_W(..) => false,
        Instruction::LDC(..) => false,
        Instruction::LDC_W(..) => false,
        Instruction::LDC2_W(..) => false,
        Instruction::LLOAD(..) => false,
        Instruction::LOOKUPSWITCH(..) => false,
        Instruction::LSTORE(..) => false,
        Instruction::MULTIANEWARRAY(..) => false,
        Instruction::NEW(..) => false,
        Instruction::NEWARRAY(..) => false,
        Instruction::PUTFIELD(..) => false,
        Instruction::PUTSTATIC(..) => false,
        Instruction::RET(..) => false,
        Instruction::SIPUSH(..) => false,
        Instruction::TABLESWITCH(..) => false,
        Instruction::IINC_W(..) => false,
        Instruction::ILOAD_W(..) => false,
        Instruction::FLOAD_W(..) => false,
        Instruction::ALOAD_W(..) => false,
        Instruction::LLOAD_W(..) => false,
        Instruction::DLOAD_W(..) => false,
        Instruction::ISTORE_W(..) => false,
        Instruction::FSTORE_W(..) => false,
        Instruction::ASTORE_W(..) => false,
        Instruction::LSTORE_W(..) => false,
        Instruction::DSTORE_W(..) => false,
        Instruction::RET_W(..) => false,
        Instruction::PADDED_INSTRUCTION(..) => false,
        Instruction::WTF(..) => false,
        _ => true,
    }
}

/// The group of an opcode byte by the shape of its operands: 0 none, 1 one byte,
/// 2 a 16-bit index, 3 a 16-bit branch offset, 4 a 32-bit branch offset, 5 another shape.
pub open spec fn spec_operand_group(op: u8) -> u8 {
    if op == 0x19u8 || op == 0x3au8 || op == 0x10u8 || op == 0x18u8 || op == 0x39u8 || op == 0x17u8 || op == 0x38u8 || op == 0x15u8 || op == 0x36u8 || op == 0x12u8 || op == 0x16u8 || op == 0x37u8 || op == 0xbcu8 || op == 0xa9u8 {
        1
    } else if op == 0xbdu8 || op == 0xc0u8 || op == 0xb4u8 || op == 0xb2u8 || op == 0xc1u8 || op == 0xb7u8 || op == 0xb8u8 || op == 0xb6u8 || op == 0x13u8 || op == 0x14u8 || op == 0xbbu8 || op == 0xb5u8 || op == 0xb3u8 || op == 0x11u8 {
        2
    } else if op == 0xa7u8 || op == 0xa5u8 || op == 0xa6u8 || op == 0x9fu8 || op == 0xa0u8 || op == 0xa1u8 || op == 0xa2u8 || op == 0xa3u8 || op == 0xa4u8 || op == 0x99u8 || op == 0x9au8 || op == 0x9bu8 || op == 0x9cu8 || op == 0x9du8 || op == 0x9eu8 || op == 0xc7u8 || op == 0xc6u8 || op == 0xa8u8 {
        3
    } else if op == 0xc8u8 || op == 0xc9u8 {
        4
    } else {
        0
    }
}

pub proof fn lemma_pair_bytes_len(pairs: Seq<(i32, i32)>)
    ensures
        pair_bytes(pairs).len() == 8 * pairs.len(),
    decreases pairs.len(),
{
    if pairs.len() > 0 {
        lemma_pair_bytes_len(pairs.drop_last());
    }
}

pub proof fn lemma_i32_bytes_len(targets: Seq<i32>)
    ensures
        i32_bytes(targets).len() == 4 * targets.len(),
    decreases targets.len(),
{
    if targets.len() > 0 {
        lemma_i32_bytes_len(targets.drop_last());
    }
}

/// Writing an instruction at any offset produces exactly its encoded length in bytes.
pub proof fn lemma_instruction_length(i: Instruction, offset: nat)
    ensures
        spec_encode_instruction(i, offset).len() == spec_instruction_length(i, offset),
{
    match i {
        Instruction::LOOKUPSWITCH(_, pairs) => {
            lemma_pair_bytes_len(pairs@);
        },
        Instruction::TABLESWITCH(_, _, _, targets) => {
            lemma_i32_bytes_len(targets@);
        },
        _ => {},
    }
}

/// The operands of a switch start at a multiple of four, after
/// `(4 - ((offset + 1) mod 4)) mod 4` bytes of padding.
pub proof fn lemma_switch_alignment(offset: nat)
    ensures
        (offset + 1 + switch_padding(offset)) % 4 == 0,
        switch_padding(offset) < 4,
{
}

pub proof fn lemma_operand_free(i: Instruction, offset: nat)
    requires
        operand_free(i),
    ensures
        spec_encode_instruction(i, offset) == seq![spec_opcode(i)],
{
    assert(spec_encode_instruction(i, offset) =~= seq![spec_opcode(i)]);
}

/// The decoding path of an instruction by the shape of its operands: 0 none, 1 to 4 the
/// operand groups, 5 `iinc`, 6 `invokedynamic`, 7 `invokeinterface`, 8 `multianewarray`,
/// 9 the widened forms, 10 and 11 the switches, 12 neither an opcode nor an instruction.
pub open spec fn instr_class(i: Instruction) -> u8 {
    match i {
        Instruction::AALOAD => 0,
        Instruction::AASTORE => 0,
        Instruction::ACONST_NULL => 0,
        Instruction::ALOAD(..) => 1,
        Instruction::ALOAD_0 => 0,
        Instruction::ALOAD_1 => 0,
        Instruction::ALOAD_2 => 0,
        Instruction::ALOAD_3 => 0,
        Instruction::ANEWARRAY(..) => 2,
        Instruction::ARETURN => 0,
        Instruction::ARRAYLENGTH => 0,
        Instruction::ASTORE(..) => 1,
        Instruction::ASTORE_0 => 0,
        Instruction::ASTORE_1 => 0,
        Instruction::ASTORE_2 => 0,
        Instruction::ASTORE_3 => 0,
        Instruction::ATHROW => 0,
        Instruction::BALOAD => 0,
        Instruction::BASTORE => 0,
        Instruction::BIPUSH(..) => 1,
        Instruction::CALOAD => 0,
        Instruction::CASTORE => 0,
        Instruction::CHECKCAST(..) => 2,
        Instruction::D2F => 0,
        Instruction::D2I => 0,
        Instruction::D2L => 0,
        Instruction::DADD => 0,
        Instruction::DALOAD => 0,
        Instruction::DASTORE => 0,
        Instruction::DCMPL => 0,
        Instruction::DCMPG => 0,
        Instruction::DCONST_0 => 0,
        Instruction::DCONST_1 => 0,
        Instruction::DDIV => 0,
        Instruction::DLOAD(..) => 1,
        Instruction::DLOAD_0 => 0,
        Instruction::DLOAD_1 => 0,
        Instruction::DLOAD_2 => 0,
        Instruction::DLOAD_3 => 0,
        Instruction::DMUL => 0,
        Instruction::DNEG => 0,
        Instruction::DREM => 0,
        Instruction::DRETURN => 0,
        Instruction::DSTORE(..) => 1,
        Instruction::DSTORE_0 => 0,
        Instruction::DSTORE_1 => 0,
        Instruction::DSTORE_2 => 0,
        Instruction::DSTORE_3 => 0,
        Instruction::DSUB => 0,
        Instruction::DUP => 0,
        Instruction::DUP_X1 => 0,
        Instruction::DUP_X2 => 0,
        Instruction::DUP2 => 0,
        Instruction::DUP2_X1 => 0,
        Instruction::DUP2_X2 => 0,
        Instruction::F2D => 0,
        Instruction::F2I => 0,
        Instruction::F2L => 0,
        Instruction::FADD => 0,
        Instruction::FALOAD => 0,
        Instruction::FASTORE => 0,
        Instruction::FCMPL => 0,
        Instruction::FCMPG => 0,
        Instruction::FCONST_0 => 0,
        Instruction::FCONST_1 => 0,
        Instruction::FCONST_2 => 0,
        Instruction::FDIV => 0,
        Instruction::FLOAD(..) => 1,
        Instruction::FLOAD_0 => 0,
        Instruction::FLOAD_1 => 0,
        Instruction::FLOAD_2 => 0,
        Instruction::FLOAD_3 => 0,
        Instruction::FMUL => 0,
        Instruction::FNEG => 0,
        Instruction::FREM => 0,
        Instruction::FRETURN => 0,
        Instruction::FSTORE(..) => 1,
        Instruction::FSTORE_0 => 0,
        Instruction::FSTORE_1 => 0,
        Instruction::FSTORE_2 => 0,
        Instruction::FSTORE_3 => 0,
        Instruction::FSUB => 0,
        Instruction::GETFIELD(..) => 2,
        Instruction::GETSTATIC(..) => 2,
        Instruction::GOTO(..) => 3,
        Instruction::GOTO_W(..) => 4,
        Instruction::I2B => 0,
        Instruction::I2C => 0,
        Instruction::I2D => 0,
        Instruction::I2F => 0,
        Instruction::I2L => 0,
        Instruction::I2S => 0,
        Instruction::IADD => 0,
        Instruction::IALOAD => 0,
        Instruction::IAND => 0,
        Instruction::IASTORE => 0,
        Instruction::ICONST_M1 => 0,
        Instruction::ICONST_0 => 0,
        Instruction::ICONST_1 => 0,
        Instruction::ICONST_2 => 0,
        Instruction::ICONST_3 => 0,
        Instruction::ICONST_4 => 0,
        Instruction::ICONST_5 => 0,
        Instruction::IDIV => 0,
        Instruction::IF_ACMPEQ(..) => 3,
        Instruction::IF_ACMPNE(..) => 3,
        Instruction::IF_ICMPEQ(..) => 3,
        Instruction::IF_ICMPNE(..) => 3,
        Instruction::IF_ICMPLT(..) => 3,
        Instruction::IF_ICMPGE(..) => 3,
        Instruction::IF_ICMPGT(..) => 3,
        Instruction::IF_ICMPLE(..) => 3,
        Instruction::IFEQ(..) => 3,
        Instruction::IFNE(..) => 3,
        Instruction::IFLT(..) => 3,
        Instruction::IFGE(..) => 3,
        Instruction::IFGT(..) => 3,
        Instruction::IFLE(..) => 3,
        Instruction::IFNONNULL(..) => 3,
        Instruction::IFNULL(..) => 3,
        Instruction::IINC(..) => 5,
        Instruction::ILOAD(..) => 1,
        Instruction::ILOAD_0 => 0,
        Instruction::ILOAD_1 => 0,
        Instruction::ILOAD_2 => 0,
        Instruction::ILOAD_3 => 0,
        Instruction::IMUL => 0,
        Instruction::INEG => 0,
        Instruction::INSTANCEOF(..) => 2,
        Instruction::INVOKEDYNAMIC(..) => 6,
        Instruction::INVOKEINTERFACE(..) => 7,
        Instruction::INVOKESPECIAL(..) => 2,
        Instruction::INVOKESTATIC(..) => 2,
        Instruction::INVOKEVIRTUAL(..) => 2,
        Instruction::IOR => 0,
        Instruction::IREM => 0,
        Instruction::IRETURN => 0,
        Instruction::ISHL => 0,
        Instruction::ISHR => 0,
        Instruction::ISTORE(..) => 1,
        Instruction::ISTORE_0 => 0,
        Instruction::ISTORE_1 => 0,
        Instruction::ISTORE_2 => 0,
        Instruction::ISTORE_3 => 0,
        Instruction::ISUB => 0,
        Instruction::IUSHR => 0,
        Instruction::IXOR => 0,
        Instruction::JSR(..) => 3,
        Instruction::JSR_W(..) => 4,
        Instruction::L2D => 0,
        Instruction::L2F => 0,
        Instruction::L2I => 0,
        Instruction::LADD => 0,
        Instruction::LALOAD => 0,
        Instruction::LAND => 0,
        Instruction::LASTORE => 0,
        Instruction::LCMP => 0,
        Instruction::LCONST_0 => 0,
        Instruction::LCONST_1 => 0,
        Instruction::LDC(..) => 1,
        Instruction::LDC_W(..) => 2,
        Instruction::LDC2_W(..) => 2,
        Instruction::LDIV => 0,
        Instruction::LLOAD(..) => 1,
        Instruction::LLOAD_0 => 0,
        Instruction::LLOAD_1 => 0,
        Instruction::LLOAD_2 => 0,
        Instruction::LLOAD_3 => 0,
        Instruction::LMUL => 0,
        Instruction::LNEG => 0,
        Instruction::LOOKUPSWITCH(..) => 10,
        Instruction::LOR => 0,
        Instruction::LREM => 0,
        Instruction::LRETURN => 0,
        Instruction::LSHL => 0,
        Instruction::LSHR => 0,
        Instruction::LSTORE(..) => 1,
        Instruction::LSTORE_0 => 0,
        Instruction::LSTORE_1 => 0,
        Instruction::LSTORE_2 => 0,
        Instruction::LSTORE_3 => 0,
        Instruction::LSUB => 0,
        Instruction::LUSHR => 0,
        Instruction::LXOR => 0,
        Instruction::MONITORENTER => 0,
        Instruction::MONITOREXIT => 0,
        Instruction::MULTIANEWARRAY(..) => 8,
        Instruction::NEW(..) => 2,
        Instruction::NEWARRAY(..) => 1,
        Instruction::NOP => 0,
        Instruction::POP => 0,
        Instruction::POP2 => 0,
        Instruction::PUTFIELD(..) => 2,
        Instruction::PUTSTATIC(..) => 2,
        Instruction::RET(..) => 1,
        Instruction::RETURN => 0,
        Instruction::SALOAD => 0,
        Instruction::SASTORE => 0,
        Instruction::SIPUSH(..) => 2,
        Instruction::SWAP => 0,
        Instruction::TABLESWITCH(..) => 11,
        Instruction::IINC_W(..) => 9,
        Instruction::ILOAD_W(..) => 9,
        Instruction::FLOAD_W(..) => 9,
        Instruction::ALOAD_W(..) => 9,
        Instruction::LLOAD_W(..) => 9,
        Instruction::DLOAD_W(..) => 9,
        Instruction::ISTORE_W(..) => 9,
        Instruction::FSTORE_W(..) => 9,
        Instruction::ASTORE_W(..) => 9,
        Instruction::LSTORE_W(..) => 9,
        Instruction::DSTORE_W(..) => 9,
        Instruction::RET_W(..) => 9,
        Instruction::PADDED_INSTRUCTION(..) => 12,
        Instruction::WTF(..) => 12,
    }
}

/// Whether `op` is the opcode of an instruction without operands.
pub open spec fn simple_member(op: u8) -> bool {
    op == 0x32u8 || op == 0x53u8 || op == 0x01u8 || op == 0x2au8 || op == 0x2bu8 || op == 0x2cu8 || op == 0x2du8 || op == 0xb0u8 || op == 0xbeu8 || op == 0x4bu8 || op == 0x4cu8 || op == 0x4du8 || op == 0x4eu8 || op == 0xbfu8 || op == 0x33u8 || op == 0x54u8 || op == 0x34u8 || op == 0x55u8 || op == 0x90u8 || op == 0x8eu8 || op == 0x8fu8 || op == 0x63u8 || op == 0x31u8 || op == 0x52u8 || op == 0x97u8 || op == 0x98u8 || op == 0x0eu8 || op == 0x0fu8 || op == 0x6fu8 || op == 0x26u8 || op == 0x27u8 || op == 0x28u8 || op == 0x29u8 || op == 0x6bu8 || op == 0x77u8 || op == 0x73u8 || op == 0xafu8 || op == 0x47u8 || op == 0x48u8 || op == 0x49u8 || op == 0x4au8 || op == 0x67u8 || op == 0x59u8 || op == 0x5au8 || op == 0x5bu8 || op == 0x5cu8 || op == 0x5du8 || op == 0x5eu8 || op == 0x8du8 || op == 0x8bu8 || op == 0x8cu8 || op == 0x62u8 || op == 0x30u8 || op == 0x51u8 || op == 0x95u8 || op == 0x96u8 || op == 0x0bu8 || op == 0x0cu8 || op == 0x0du8 || op == 0x6eu8 || op == 0x22u8 || op == 0x23u8 || op == 0x24u8 || op == 0x25u8 || op == 0x6au8 || op == 0x76u8 || op == 0x72u8 || op == 0xaeu8 || op == 0x43u8 || op == 0x44u8 || op == 0x45u8 || op == 0x46u8 || op == 0x66u8 || op == 0x91u8 || op == 0x92u8 || op == 0x87u8 || op == 0x86u8 || op == 0x85u8 || op == 0x93u8 || op == 0x60u8 || op == 0x2eu8 || op == 0x7eu8 || op == 0x4fu8 || op == 0x02u8 || op == 0x03u8 || op == 0x04u8 || op == 0x05u8 || op == 0x06u8 || op == 0x07u8 || op == 0x08u8 || op == 0x6cu8 || op == 0x1au8 || op == 0x1bu8 || op == 0x1cu8 || op == 0x1du8 || op == 0x68u8 || op == 0x74u8 || op == 0x80u8 || op == 0x70u8 || op == 0xacu8 || op == 0x78u8 || op == 0x7au8 || op == 0x3bu8 || op == 0x3cu8 || op == 0x3du8 || op == 0x3eu8 || op == 0x64u8 || op == 0x7cu8 || op == 0x82u8 || op == 0x8au8 || op == 0x89u8 || op == 0x88u8 || op == 0x61u8 || op == 0x2fu8 || op == 0x7fu8 || op == 0x50u8 || op == 0x94u8 || op == 0x09u8 || op == 0x0au8 || op == 0x6du8 || op == 0x1eu8 || op == 0x1fu8 || op == 0x20u8 || op == 0x21u8 || op == 0x69u8 || op == 0x75u8 || op == 0x81u8 || op == 0x71u8 || op == 0xadu8 || op == 0x79u8 || op == 0x7bu8 || op == 0x3fu8 || op == 0x40u8 || op == 0x41u8 || op == 0x42u8 || op == 0x65u8 || op == 0x7du8 || op == 0x83u8 || op == 0xc2u8 || op == 0xc3u8 || op == 0x00u8 || op == 0x57u8 || op == 0x58u8 || op == 0xb1u8 || op == 0x35u8 || op == 0x56u8 || op == 0x5fu8
}

/// Whether `op` is a load, store or `ret` opcode that `wide` can prefix.
pub open spec fn wide_member(op: u8) -> bool {
    op == 0x15u8 || op == 0x17u8 || op == 0x19u8 || op == 0x16u8 || op == 0x18u8 || op == 0x36u8 || op == 0x38u8 || op == 0x3au8 || op == 0x37u8 || op == 0x39u8 || op == 0xa9u8
}

/// What the first bytes of an instruction's encoding tell of its decoding path.
pub proof fn lemma_instr_class(i: Instruction, o: nat)
    ensures
        ({
            let c = instr_class(i);
            let e = spec_encode_instruction(i, o);
            let op = spec_opcode(i);
            &&& c != 12 ==> e.len() >= 1 && e[0] == op
            &&& c == 12 <==> (i is WTF || i is PADDED_INSTRUCTION)
            &&& c == 0 ==> simple_member(op) && e.len() == 1
            &&& 1 <= c <= 4 ==> !simple_member(op) && spec_operand_group(op) == c
            &&& c == 1 ==> e.len() == 2
            &&& (c == 2 || c == 3) ==> e.len() == 3
            &&& c == 4 ==> e.len() == 5
            &&& 5 <= c <= 11 ==> !simple_member(op) && spec_operand_group(op) == 0
            &&& c == 5 ==> i is IINC && op == 0x84u8
            &&& c == 6 ==> i is INVOKEDYNAMIC && op == 0xbau8
            &&& c == 7 ==> i is INVOKEINTERFACE && op == 0xb9u8
            &&& c == 8 ==> i is MULTIANEWARRAY && op == 0xc5u8
            &&& c == 9 ==> op == 0xc4u8 && e.len() >= 4 && ((i is IINC_W && e[1] == 0x84u8 && e.len() == 6) || (wide_member(e[1]) && e.len() == 4))
            &&& c == 10 ==> i is LOOKUPSWITCH && op == 0xabu8
            &&& c == 11 ==> i is TABLESWITCH && op == 0xaau8
        }),
{
    match i {
        Instruction::AALOAD => {},
        Instruction::AASTORE => {},
        Instruction::ACONST_NULL => {},
        Instruction::ALOAD(..) => {},
        Instruction::ALOAD_0 => {},
        Instruction::ALOAD_1 => {},
        Instruction::ALOAD_2 => {},
        Instruction::ALOAD_3 => {},
        Instruction::ANEWARRAY(..) => {},
        Instruction::ARETURN => {},
        Instruction::ARRAYLENGTH => {},
        Instruction::ASTORE(..) => {},
        Instruction::ASTORE_0 => {},
        Instruction::ASTORE_1 => {},
        Instruction::ASTORE_2 => {},
        Instruction::ASTORE_3 => {},
        Instruction::ATHROW => {},
        Instruction::BALOAD => {},
        Instruction::BASTORE => {},
        Instruction::BIPUSH(..) => {},
        Instruction::CALOAD => {},
        Instruction::CASTORE => {},
        Instruction::CHECKCAST(..) => {},
        Instruction::D2F => {},
        Instruction::D2I => {},
        Instruction::D2L => {},
        Instruction::DADD => {},
        Instruction::DALOAD => {},
        Instruction::DASTORE => {},
        Instruction::DCMPL => {},
        Instruction::DCMPG => {},
        Instruction::DCONST_0 => {},
        Instruction::DCONST_1 => {},
        Instruction::DDIV => {},
        Instruction::DLOAD(..) => {},
        Instruction::DLOAD_0 => {},
        Instruction::DLOAD_1 => {},
        Instruction::DLOAD_2 => {},
        Instruction::DLOAD_3 => {},
        Instruction::DMUL => {},
        Instruction::DNEG => {},
        Instruction::DREM => {},
        Instruction::DRETURN => {},
        Instruction::DSTORE(..) => {},
        Instruction::DSTORE_0 => {},
        Instruction::DSTORE_1 => {},
        Instruction::DSTORE_2 => {},
        Instruction::DSTORE_3 => {},
        Instruction::DSUB => {},
        Instruction::DUP => {},
        Instruction::DUP_X1 => {},
        Instruction::DUP_X2 => {},
        Instruction::DUP2 => {},
        Instruction::DUP2_X1 => {},
        Instruction::DUP2_X2 => {},
        Instruction::F2D => {},
        Instruction::F2I => {},
        Instruction::F2L => {},
        Instruction::FADD => {},
        Instruction::FALOAD => {},
        Instruction::FASTORE => {},
        Instruction::FCMPL => {},
        Instruction::FCMPG => {},
        Instruction::FCONST_0 => {},
        Instruction::FCONST_1 => {},
        Instruction::FCONST_2 => {},
        Instruction::FDIV => {},
        Instruction::FLOAD(..) => {},
        Instruction::FLOAD_0 => {},
        Instruction::FLOAD_1 => {},
        Instruction::FLOAD_2 => {},
        Instruction::FLOAD_3 => {},
        Instruction::FMUL => {},
        Instruction::FNEG => {},
        Instruction::FREM => {},
        Instruction::FRETURN => {},
        Instruction::FSTORE(..) => {},
        Instruction::FSTORE_0 => {},
        Instruction::FSTORE_1 => {},
        Instruction::FSTORE_2 => {},
        Instruction::FSTORE_3 => {},
        Instruction::FSUB => {},
        Instruction::GETFIELD(..) => {},
        Instruction::GETSTATIC(..) => {},
        Instruction::GOTO(..) => {},
        Instruction::GOTO_W(..) => {},
        Instruction::I2B => {},
        Instruction::I2C => {},
        Instruction::I2D => {},
        Instruction::I2F => {},
        Instruction::I2L => {},
        Instruction::I2S => {},
        Instruction::IADD => {},
        Instruction::IALOAD => {},
        Instruction::IAND => {},
        Instruction::IASTORE => {},
        Instruction::ICONST_M1 => {},
        Instruction::ICONST_0 => {},
        Instruction::ICONST_1 => {},
        Instruction::ICONST_2 => {},
        Instruction::ICONST_3 => {},
        Instruction::ICONST_4 => {},
        Instruction::ICONST_5 => {},
        Instruction::IDIV => {},
        Instruction::IF_ACMPEQ(..) => {},
        Instruction::IF_ACMPNE(..) => {},
        Instruction::IF_ICMPEQ(..) => {},
        Instruction::IF_ICMPNE(..) => {},
        Instruction::IF_ICMPLT(..) => {},
        Instruction::IF_ICMPGE(..) => {},
        Instruction::IF_ICMPGT(..) => {},
        Instruction::IF_ICMPLE(..) => {},
        Instruction::IFEQ(..) => {},
        Instruction::IFNE(..) => {},
        Instruction::IFLT(..) => {},
        Instruction::IFGE(..) => {},
        Instruction::IFGT(..) => {},
        Instruction::IFLE(..) => {},
        Instruction::IFNONNULL(..) => {},
        Instruction::IFNULL(..) => {},
        Instruction::IINC(..) => {},
        Instruction::ILOAD(..) => {},
        Instruction::ILOAD_0 => {},
        Instruction::ILOAD_1 => {},
        Instruction::ILOAD_2 => {},
        Instruction::ILOAD_3 => {},
        Instruction::IMUL => {},
        Instruction::INEG => {},
        Instruction::INSTANCEOF(..) => {},
        Instruction::INVOKEDYNAMIC(..) => {},
        Instruction::INVOKEINTERFACE(..) => {},
        Instruction::INVOKESPECIAL(..) => {},
        Instruction::INVOKESTATIC(..) => {},
        Instruction::INVOKEVIRTUAL(..) => {},
        Instruction::IOR => {},
        Instruction::IREM => {},
        Instruction::IRETURN => {},
        Instruction::ISHL => {},
        Instruction::ISHR => {},
        Instruction::ISTORE(..) => {},
        Instruction::ISTORE_0 => {},
        Instruction::ISTORE_1 => {},
        Instruction::ISTORE_2 => {},
        Instruction::ISTORE_3 => {},
        Instruction::ISUB => {},
        Instruction::IUSHR => {},
        Instruction::IXOR => {},
        Instruction::JSR(..) => {},
        Instruction::JSR_W(..) => {},
        Instruction::L2D => {},
        Instruction::L2F => {},
        Instruction::L2I => {},
        Instruction::LADD => {},
        Instruction::LALOAD => {},
        Instruction::LAND => {},
        Instruction::LASTORE => {},
        Instruction::LCMP => {},
        Instruction::LCONST_0 => {},
        Instruction::LCONST_1 => {},
        Instruction::LDC(..) => {},
        Instruction::LDC_W(..) => {},
        Instruction::LDC2_W(..) => {},
        Instruction::LDIV => {},
        Instruction::LLOAD(..) => {},
        Instruction::LLOAD_0 => {},
        Instruction::LLOAD_1 => {},
        Instruction::LLOAD_2 => {},
        Instruction::LLOAD_3 => {},
        Instruction::LMUL => {},
        Instruction::LNEG => {},
        Instruction::LOOKUPSWITCH(..) => {},
        Instruction::LOR => {},
        Instruction::LREM => {},
        Instruction::LRETURN => {},
        Instruction::LSHL => {},
        Instruction::LSHR => {},
        Instruction::LSTORE(..) => {},
        Instruction::LSTORE_0 => {},
        Instruction::LSTORE_1 => {},
        Instruction::LSTORE_2 => {},
        Instruction::LSTORE_3 => {},
        Instruction::LSUB => {},
        Instruction::LUSHR => {},
        Instruction::LXOR => {},
        Instruction::MONITORENTER => {},
        Instruction::MONITOREXIT => {},
        Instruction::MULTIANEWARRAY(..) => {},
        Instruction::NEW(..) => {},
        Instruction::NEWARRAY(..) => {},
        Instruction::NOP => {},
        Instruction::POP => {},
        Instruction::POP2 => {},
        Instruction::PUTFIELD(..) => {},
        Instruction::PUTSTATIC(..) => {},
        Instruction::RET(..) => {},
        Instruction::RETURN => {},
        Instruction::SALOAD => {},
        Instruction::SASTORE => {},
        Instruction::SIPUSH(..) => {},
        Instruction::SWAP => {},
        Instruction::TABLESWITCH(..) => {},
        Instruction::IINC_W(..) => {},
        Instruction::ILOAD_W(..) => {},
        Instruction::FLOAD_W(..) => {},
        Instruction::ALOAD_W(..) => {},
        Instruction::LLOAD_W(..) => {},
        Instruction::DLOAD_W(..) => {},
        Instruction::ISTORE_W(..) => {},
        Instruction::FSTORE_W(..) => {},
        Instruction::ASTORE_W(..) => {},
        Instruction::LSTORE_W(..) => {},
        Instruction::DSTORE_W(..) => {},
        Instruction::RET_W(..) => {},
        Instruction::PADDED_INSTRUCTION(..) => {},
        Instruction::WTF(..) => {},
    }
}


impl Instruction {
    /// The opcode byte that starts this instruction.
    pub fn opcode(&self) -> (r: u8)
        ensures
            r == spec_opcode(*self),
    {
        match self {
            Instruction::AALOAD => 0x32,
            Instruction::AASTORE => 0x53,
            Instruction::ACONST_NULL => 0x01,
            Instruction::ALOAD(..) => 0x19,
            Instruction::ALOAD_0 => 0x2a,
            Instruction::ALOAD_1 => 0x2b,
            Instruction::ALOAD_2 => 0x2c,
            Instruction::ALOAD_3 => 0x2d,
            Instruction::ANEWARRAY(..) => 0xbd,
            Instruction::ARETURN => 0xb0,
            Instruction::ARRAYLENGTH => 0xbe,
            Instruction::ASTORE(..) => 0x3a,
            Instruction::ASTORE_0 => 0x4b,
            Instruction::ASTORE_1 => 0x4c,
            Instruction::ASTORE_2 => 0x4d,
            Instruction::ASTORE_3 => 0x4e,
            Instruction::ATHROW => 0xbf,
            Instruction::BALOAD => 0x33,
            Instruction::BASTORE => 0x54,
            Instruction::BIPUSH(..) => 0x10,
            Instruction::CALOAD => 0x34,
            Instruction::CASTORE => 0x55,
            Instruction::CHECKCAST(..) => 0xc0,
            Instruction::D2F => 0x90,
            Instruction::D2I => 0x8e,
            Instruction::D2L => 0x8f,
            Instruction::DADD => 0x63,
            Instruction::DALOAD => 0x31,
            Instruction::DASTORE => 0x52,
            Instruction::DCMPL => 0x97,
            Instruction::DCMPG => 0x98,
            Instruction::DCONST_0 => 0x0e,
            Instruction::DCONST_1 => 0x0f,
            Instruction::DDIV => 0x6f,
            Instruction::DLOAD(..) => 0x18,
            Instruction::DLOAD_0 => 0x26,
            Instruction::DLOAD_1 => 0x27,
            Instruction::DLOAD_2 => 0x28,
            Instruction::DLOAD_3 => 0x29,
            Instruction::DMUL => 0x6b,
            Instruction::DNEG => 0x77,
            Instruction::DREM => 0x73,
            Instruction::DRETURN => 0xaf,
            Instruction::DSTORE(..) => 0x39,
            Instruction::DSTORE_0 => 0x47,
            Instruction::DSTORE_1 => 0x48,
            Instruction::DSTORE_2 => 0x49,
            Instruction::DSTORE_3 => 0x4a,
            Instruction::DSUB => 0x67,
            Instruction::DUP => 0x59,
            Instruction::DUP_X1 => 0x5a,
            Instruction::DUP_X2 => 0x5b,
            Instruction::DUP2 => 0x5c,
            Instruction::DUP2_X1 => 0x5d,
            Instruction::DUP2_X2 => 0x5e,
            Instruction::F2D => 0x8d,
            Instruction::F2I => 0x8b,
            Instruction::F2L => 0x8c,
            Instruction::FADD => 0x62,
            Instruction::FALOAD => 0x30,
            Instruction::FASTORE => 0x51,
            Instruction::FCMPL => 0x95,
            Instruction::FCMPG => 0x96,
            Instruction::FCONST_0 => 0x0b,
            Instruction::FCONST_1 => 0x0c,
            Instruction::FCONST_2 => 0x0d,
            Instruction::FDIV => 0x6e,
            Instruction::FLOAD(..) => 0x17,
            Instruction::FLOAD_0 => 0x22,
            Instruction::FLOAD_1 => 0x23,
            Instruction::FLOAD_2 => 0x24,
            Instruction::FLOAD_3 => 0x25,
            Instruction::FMUL => 0x6a,
            Instruction::FNEG => 0x76,
            Instruction::FREM => 0x72,
            Instruction::FRETURN => 0xae,
            Instruction::FSTORE(..) => 0x38,
            Instruction::FSTORE_0 => 0x43,
            Instruction::FSTORE_1 => 0x44,
            Instruction::FSTORE_2 => 0x45,
            Instruction::FSTORE_3 => 0x46,
            Instruction::FSUB => 0x66,
            Instruction::GETFIELD(..) => 0xb4,
            Instruction::GETSTATIC(..) => 0xb2,
            Instruction::GOTO(..) => 0xa7,
            Instruction::GOTO_W(..) => 0xc8,
            Instruction::I2B => 0x91,
            Instruction::I2C => 0x92,
            Instruction::I2D => 0x87,
            Instruction::I2F => 0x86,
            Instruction::I2L => 0x85,
            Instruction::I2S => 0x93,
            Instruction::IADD => 0x60,
            Instruction::IALOAD => 0x2e,
            Instruction::IAND => 0x7e,
            Instruction::IASTORE => 0x4f,
            Instruction::ICONST_M1 => 0x02,
            Instruction::ICONST_0 => 0x03,
            Instruction::ICONST_1 => 0x04,
            Instruction::ICONST_2 => 0x05,
            Instruction::ICONST_3 => 0x06,
            Instruction::ICONST_4 => 0x07,
            Instruction::ICONST_5 => 0x08,
            Instruction::IDIV => 0x6c,
            Instruction::IF_ACMPEQ(..) => 0xa5,
            Instruction::IF_ACMPNE(..) => 0xa6,
            Instruction::IF_ICMPEQ(..) => 0x9f,
            Instruction::IF_ICMPNE(..) => 0xa0,
            Instruction::IF_ICMPLT(..) => 0xa1,
            Instruction::IF_ICMPGE(..) => 0xa2,
            Instruction::IF_ICMPGT(..) => 0xa3,
            Instruction::IF_ICMPLE(..) => 0xa4,
            Instruction::IFEQ(..) => 0x99,
            Instruction::IFNE(..) => 0x9a,
            Instruction::IFLT(..) => 0x9b,
            Instruction::IFGE(..) => 0x9c,
            Instruction::IFGT(..) => 0x9d,
            Instruction::IFLE(..) => 0x9e,
            Instruction::IFNONNULL(..) => 0xc7,
            Instruction::IFNULL(..) => 0xc6,
            Instruction::IINC(..) => 0x84,
            Instruction::ILOAD(..) => 0x15,
            Instruction::ILOAD_0 => 0x1a,
            Instruction::ILOAD_1 => 0x1b,
            Instruction::ILOAD_2 => 0x1c,
            Instruction::ILOAD_3 => 0x1d,
            Instruction::IMUL => 0x68,
            Instruction::INEG => 0x74,
            Instruction::INSTANCEOF(..) => 0xc1,
            Instruction::INVOKEDYNAMIC(..) => 0xba,
            Instruction::INVOKEINTERFACE(..) => 0xb9,
            Instruction::INVOKESPECIAL(..) => 0xb7,
            Instruction::INVOKESTATIC(..) => 0xb8,
            Instruction::INVOKEVIRTUAL(..) => 0xb6,
            Instruction::IOR => 0x80,
            Instruction::IREM => 0x70,
            Instruction::IRETURN => 0xac,
            Instruction::ISHL => 0x78,
            Instruction::ISHR => 0x7a,
            Instruction::ISTORE(..) => 0x36,
            Instruction::ISTORE_0 => 0x3b,
            Instruction::ISTORE_1 => 0x3c,
            Instruction::ISTORE_2 => 0x3d,
            Instruction::ISTORE_3 => 0x3e,
            Instruction::ISUB => 0x64,
            Instruction::IUSHR => 0x7c,
            Instruction::IXOR => 0x82,
            Instruction::JSR(..) => 0xa8,
            Instruction::JSR_W(..) => 0xc9,
            Instruction::L2D => 0x8a,
            Instruction::L2F => 0x89,
            Instruction::L2I => 0x88,
            Instruction::LADD => 0x61,
            Instruction::LALOAD => 0x2f,
            Instruction::LAND => 0x7f,
            Instruction::LASTORE => 0x50,
            Instruction::LCMP => 0x94,
            Instruction::LCONST_0 => 0x09,
            Instruction::LCONST_1 => 0x0a,
            Instruction::LDC(..) => 0x12,
            Instruction::LDC_W(..) => 0x13,
            Instruction::LDC2_W(..) => 0x14,
            Instruction::LDIV => 0x6d,
            Instruction::LLOAD(..) => 0x16,
            Instruction::LLOAD_0 => 0x1e,
            Instruction::LLOAD_1 => 0x1f,
            Instruction::LLOAD_2 => 0x20,
            Instruction::LLOAD_3 => 0x21,
            Instruction::LMUL => 0x69,
            Instruction::LNEG => 0x75,
            Instruction::LOOKUPSWITCH(..) => 0xab,
            Instruction::LOR => 0x81,
            Instruction::LREM => 0x71,
            Instruction::LRETURN => 0xad,
            Instruction::LSHL => 0x79,
            Instruction::LSHR => 0x7b,
            Instruction::LSTORE(..) => 0x37,
            Instruction::LSTORE_0 => 0x3f,
            Instruction::LSTORE_1 => 0x40,
            Instruction::LSTORE_2 => 0x41,
            Instruction::LSTORE_3 => 0x42,
            Instruction::LSUB => 0x65,
            Instruction::LUSHR => 0x7d,
            Instruction::LXOR => 0x83,
            Instruction::MONITORENTER => 0xc2,
            Instruction::MONITOREXIT => 0xc3,
            Instruction::MULTIANEWARRAY(..) => 0xc5,
            Instruction::NEW(..) => 0xbb,
            Instruction::NEWARRAY(..) => 0xbc,
            Instruction::NOP => 0x00,
            Instruction::POP => 0x57,
            Instruction::POP2 => 0x58,
            Instruction::PUTFIELD(..) => 0xb5,
            Instruction::PUTSTATIC(..) => 0xb3,
            Instruction::RET(..) => 0xa9,
            Instruction::RETURN => 0xb1,
            Instruction::SALOAD => 0x35,
            Instruction::SASTORE => 0x56,
            Instruction::SIPUSH(..) => 0x11,
            Instruction::SWAP => 0x5f,
            Instruction::TABLESWITCH(..) => 0xaa,
            Instruction::IINC_W(..) => 0xc4,
            Instruction::ILOAD_W(..) => 0xc4,
            Instruction::FLOAD_W(..) => 0xc4,
            Instruction::ALOAD_W(..) => 0xc4,
            Instruction::LLOAD_W(..) => 0xc4,
            Instruction::DLOAD_W(..) => 0xc4,
            Instruction::ISTORE_W(..) => 0xc4,
            Instruction::FSTORE_W(..) => 0xc4,
            Instruction::ASTORE_W(..) => 0xc4,
            Instruction::LSTORE_W(..) => 0xc4,
            Instruction::DSTORE_W(..) => 0xc4,
            Instruction::RET_W(..) => 0xc4,
            Instruction::PADDED_INSTRUCTION(_) => 0x00,
            Instruction::WTF(op) => *op as u8,
        }
    }

    /// Number of bytes this instruction takes when its opcode sits at `offset` in the code array.
    pub fn encoded_length(&self, offset: usize) -> (r: usize)
        requires
            spec_instruction_length(*self, offset as nat) <= usize::MAX,
        ensures
            r == spec_instruction_length(*self, offset as nat),
    {
        match self {
            Instruction::ALOAD(_) => 2,
            Instruction::ASTORE(_) => 2,
            Instruction::BIPUSH(_) => 2,
            Instruction::DLOAD(_) => 2,
            Instruction::DSTORE(_) => 2,
            Instruction::FLOAD(_) => 2,
            Instruction::FSTORE(_) => 2,
            Instruction::ILOAD(_) => 2,
            Instruction::ISTORE(_) => 2,
            Instruction::LDC(_) => 2,
            Instruction::LLOAD(_) => 2,
            Instruction::LSTORE(_) => 2,
            Instruction::NEWARRAY(_) => 2,
            Instruction::RET(_) => 2,
            Instruction::ANEWARRAY(_) => 3,
            Instruction::CHECKCAST(_) => 3,
            Instruction::GETFIELD(_) => 3,
            Instruction::GETSTATIC(_) => 3,
            Instruction::INSTANCEOF(_) => 3,
            Instruction::INVOKESPECIAL(_) => 3,
            Instruction::INVOKESTATIC(_) => 3,
            Instruction::INVOKEVIRTUAL(_) => 3,
            Instruction::LDC_W(_) => 3,
            Instruction::LDC2_W(_) => 3,
            Instruction::NEW(_) => 3,
            Instruction::PUTFIELD(_) => 3,
            Instruction::PUTSTATIC(_) => 3,
            Instruction::SIPUSH(_) => 3,
            Instruction::GOTO(_) => 3,
            Instruction::IF_ACMPEQ(_) => 3,
            Instruction::IF_ACMPNE(_) => 3,
            Instruction::IF_ICMPEQ(_) => 3,
            Instruction::IF_ICMPNE(_) => 3,
            Instruction::IF_ICMPLT(_) => 3,
            Instruction::IF_ICMPGE(_) => 3,
            Instruction::IF_ICMPGT(_) => 3,
            Instruction::IF_ICMPLE(_) => 3,
            Instruction::IFEQ(_) => 3,
            Instruction::IFNE(_) => 3,
            Instruction::IFLT(_) => 3,
            Instruction::IFGE(_) => 3,
            Instruction::IFGT(_) => 3,
            Instruction::IFLE(_) => 3,
            Instruction::IFNONNULL(_) => 3,
            Instruction::IFNULL(_) => 3,
            Instruction::JSR(_) => 3,
            Instruction::GOTO_W(_) => 5,
            Instruction::JSR_W(_) => 5,
            Instruction::IINC(..) => 3,
            Instruction::INVOKEDYNAMIC(_) => 5,
            Instruction::INVOKEINTERFACE(..) => 5,
            Instruction::MULTIANEWARRAY(..) => 4,
            Instruction::LOOKUPSWITCH(_, pairs) => {
                let pad = padding_at(offset);
                9 + pad + 8 * pairs.len()
            },
            Instruction::TABLESWITCH(_, _, _, targets) => {
                let pad = padding_at(offset);
                13 + pad + 4 * targets.len()
            },
            Instruction::ILOAD_W(_) => 4,
            Instruction::FLOAD_W(_) => 4,
            Instruction::ALOAD_W(_) => 4,
            Instruction::LLOAD_W(_) => 4,
            Instruction::DLOAD_W(_) => 4,
            Instruction::ISTORE_W(_) => 4,
            Instruction::FSTORE_W(_) => 4,
            Instruction::ASTORE_W(_) => 4,
            Instruction::LSTORE_W(_) => 4,
            Instruction::DSTORE_W(_) => 4,
            Instruction::RET_W(_) => 4,
            Instruction::IINC_W(..) => 6,
            Instruction::PADDED_INSTRUCTION(n) => *n,
            _ => 1,
        }
    }

    /// Number of bytes this instruction takes where its operands need no alignment padding.
    pub fn len(&self) -> (r: usize)
        requires
            spec_instruction_length(*self, 3) <= usize::MAX,
        ensures
            r == spec_instruction_length(*self, 3),
    {
        self.encoded_length(3)
    }
}

/// The switch padding for an opcode at `offset`.
pub fn padding_at(offset: usize) -> (r: usize)
    ensures
        r == switch_padding(offset as nat),
        r < 4,
{
    let m: usize = offset % 4;
    (4 - (m + 1) % 4) % 4
}

/// The operand group of an opcode byte (see `spec_operand_group`).
pub fn operand_group(op: u8) -> (r: u8)
    ensures
        r == spec_operand_group(op),
{
    match op {
        0x19 | 0x3a | 0x10 | 0x18 | 0x39 | 0x17 | 0x38 | 0x15 | 0x36 | 0x12 | 0x16 | 0x37 | 0xbc | 0xa9 => 1,
        0xbd | 0xc0 | 0xb4 | 0xb2 | 0xc1 | 0xb7 | 0xb8 | 0xb6 | 0x13 | 0x14 | 0xbb | 0xb5 | 0xb3 | 0x11 => 2,
        0xa7 | 0xa5 | 0xa6 | 0x9f | 0xa0 | 0xa1 | 0xa2 | 0xa3 | 0xa4 | 0x99 | 0x9a | 0x9b | 0x9c | 0x9d | 0x9e | 0xc7 | 0xc6 | 0xa8 => 3,
        0xc8 | 0xc9 => 4,
        _ => 0,
    }
}

/// The instruction that is the opcode byte `op` alone, if there is one.
pub fn simple_instruction(op: u8) -> (r: Option<Instruction>)
    ensures
        r matches Some(i) ==> operand_free(i) && spec_opcode(i) == op,
        r is Some ==> spec_operand_group(op) == 0,
        r is Some <==> simple_member(op),
{
    match op {
        0x32 => Some(Instruction::AALOAD),
        0x53 => Some(Instruction::AASTORE),
        0x01 => Some(Instruction::ACONST_NULL),
        0x2a => Some(Instruction::ALOAD_0),
        0x2b => Some(Instruction::ALOAD_1),
        0x2c => Some(Instruction::ALOAD_2),
        0x2d => Some(Instruction::ALOAD_3),
        0xb0 => Some(Instruction::ARETURN),
        0xbe => Some(Instruction::ARRAYLENGTH),
        0x4b => Some(Instruction::ASTORE_0),
        0x4c => Some(Instruction::ASTORE_1),
        0x4d => Some(Instruction::ASTORE_2),
        0x4e => Some(Instruction::ASTORE_3),
        0xbf => Some(Instruction::ATHROW),
        0x33 => Some(Instruction::BALOAD),
        0x54 => Some(Instruction::BASTORE),
        0x34 => Some(Instruction::CALOAD),
        0x55 => Some(Instruction::CASTORE),
        0x90 => Some(Instruction::D2F),
        0x8e => Some(Instruction::D2I),
        0x8f => Some(Instruction::D2L),
        0x63 => Some(Instruction::DADD),
        0x31 => Some(Instruction::DALOAD),
        0x52 => Some(Instruction::DASTORE),
        0x97 => Some(Instruction::DCMPL),
        0x98 => Some(Instruction::DCMPG),
        0x0e => Some(Instruction::DCONST_0),
        0x0f => Some(Instruction::DCONST_1),
        0x6f => Some(Instruction::DDIV),
        0x26 => Some(Instruction::DLOAD_0),
        0x27 => Some(Instruction::DLOAD_1),
        0x28 => Some(Instruction::DLOAD_2),
        0x29 => Some(Instruction::DLOAD_3),
        0x6b => Some(Instruction::DMUL),
        0x77 => Some(Instruction::DNEG),
        0x73 => Some(Instruction::DREM),
        0xaf => Some(Instruction::DRETURN),
        0x47 => Some(Instruction::DSTORE_0),
        0x48 => Some(Instruction::DSTORE_1),
        0x49 => Some(Instruction::DSTORE_2),
        0x4a => Some(Instruction::DSTORE_3),
        0x67 => Some(Instruction::DSUB),
        0x59 => Some(Instruction::DUP),
        0x5a => Some(Instruction::DUP_X1),
        0x5b => Some(Instruction::DUP_X2),
        0x5c => Some(Instruction::DUP2),
        0x5d => Some(Instruction::DUP2_X1),
        0x5e => Some(Instruction::DUP2_X2),
        0x8d => Some(Instruction::F2D),
        0x8b => Some(Instruction::F2I),
        0x8c => Some(Instruction::F2L),
        0x62 => Some(Instruction::FADD),
        0x30 => Some(Instruction::FALOAD),
        0x51 => Some(Instruction::FASTORE),
        0x95 => Some(Instruction::FCMPL),
        0x96 => Some(Instruction::FCMPG),
        0x0b => Some(Instruction::FCONST_0),
        0x0c => Some(Instruction::FCONST_1),
        0x0d => Some(Instruction::FCONST_2),
        0x6e => Some(Instruction::FDIV),
        0x22 => Some(Instruction::FLOAD_0),
        0x23 => Some(Instruction::FLOAD_1),
        0x24 => Some(Instruction::FLOAD_2),
        0x25 => Some(Instruction::FLOAD_3),
        0x6a => Some(Instruction::FMUL),
        0x76 => Some(Instruction::FNEG),
        0x72 => Some(Instruction::FREM),
        0xae => Some(Instruction::FRETURN),
        0x43 => Some(Instruction::FSTORE_0),
        0x44 => Some(Instruction::FSTORE_1),
        0x45 => Some(Instruction::FSTORE_2),
        0x46 => Some(Instruction::FSTORE_3),
        0x66 => Some(Instruction::FSUB),
        0x91 => Some(Instruction::I2B),
        0x92 => Some(Instruction::I2C),
        0x87 => Some(Instruction::I2D),
        0x86 => Some(Instruction::I2F),
        0x85 => Some(Instruction::I2L),
        0x93 => Some(Instruction::I2S),
        0x60 => Some(Instruction::IADD),
        0x2e => Some(Instruction::IALOAD),
        0x7e => Some(Instruction::IAND),
        0x4f => Some(Instruction::IASTORE),
        0x02 => Some(Instruction::ICONST_M1),
        0x03 => Some(Instruction::ICONST_0),
        0x04 => Some(Instruction::ICONST_1),
        0x05 => Some(Instruction::ICONST_2),
        0x06 => Some(Instruction::ICONST_3),
        0x07 => Some(Instruction::ICONST_4),
        0x08 => Some(Instruction::ICONST_5),
        0x6c => Some(Instruction::IDIV),
        0x1a => Some(Instruction::ILOAD_0),
        0x1b => Some(Instruction::ILOAD_1),
        0x1c => Some(Instruction::ILOAD_2),
        0x1d => Some(Instruction::ILOAD_3),
        0x68 => Some(Instruction::IMUL),
        0x74 => Some(Instruction::INEG),
        0x80 => Some(Instruction::IOR),
        0x70 => Some(Instruction::IREM),
        0xac => Some(Instruction::IRETURN),
        0x78 => Some(Instruction::ISHL),
        0x7a => Some(Instruction::ISHR),
        0x3b => Some(Instruction::ISTORE_0),
        0x3c => Some(Instruction::ISTORE_1),
        0x3d => Some(Instruction::ISTORE_2),
        0x3e => Some(Instruction::ISTORE_3),
        0x64 => Some(Instruction::ISUB),
        0x7c => Some(Instruction::IUSHR),
        0x82 => Some(Instruction::IXOR),
        0x8a => Some(Instruction::L2D),
        0x89 => Some(Instruction::L2F),
        0x88 => Some(Instruction::L2I),
        0x61 => Some(Instruction::LADD),
        0x2f => Some(Instruction::LALOAD),
        0x7f => Some(Instruction::LAND),
        0x50 => Some(Instruction::LASTORE),
        0x94 => Some(Instruction::LCMP),
        0x09 => Some(Instruction::LCONST_0),
        0x0a => Some(Instruction::LCONST_1),
        0x6d => Some(Instruction::LDIV),
        0x1e => Some(Instruction::LLOAD_0),
        0x1f => Some(Instruction::LLOAD_1),
        0x20 => Some(Instruction::LLOAD_2),
        0x21 => Some(Instruction::LLOAD_3),
        0x69 => Some(Instruction::LMUL),
        0x75 => Some(Instruction::LNEG),
        0x81 => Some(Instruction::LOR),
        0x71 => Some(Instruction::LREM),
        0xad => Some(Instruction::LRETURN),
        0x79 => Some(Instruction::LSHL),
        0x7b => Some(Instruction::LSHR),
        0x3f => Some(Instruction::LSTORE_0),
        0x40 => Some(Instruction::LSTORE_1),
        0x41 => Some(Instruction::LSTORE_2),
        0x42 => Some(Instruction::LSTORE_3),
        0x65 => Some(Instruction::LSUB),
        0x7d => Some(Instruction::LUSHR),
        0x83 => Some(Instruction::LXOR),
        0xc2 => Some(Instruction::MONITORENTER),
        0xc3 => Some(Instruction::MONITOREXIT),
        0x00 => Some(Instruction::NOP),
        0x57 => Some(Instruction::POP),
        0x58 => Some(Instruction::POP2),
        0xb1 => Some(Instruction::RETURN),
        0x35 => Some(Instruction::SALOAD),
        0x56 => Some(Instruction::SASTORE),
        0x5f => Some(Instruction::SWAP),
        _ => None,
    }
}

/// The instruction of opcode `op`, which takes a one byte operand, with operand `x`.
pub fn with_byte_operand(op: u8, x: u8) -> (r: Instruction)
    requires
        spec_operand_group(op) == 1,
    ensures
        forall|o: nat| spec_encode_instruction(r, o) == seq![op, x],
        !(r is WTF) && !(r is PADDED_INSTRUCTION),
{
    let r = match op {
        0x19 => Instruction::ALOAD(x),
        0x3a => Instruction::ASTORE(x),
        0x10 => Instruction::BIPUSH(x),
        0x18 => Instruction::DLOAD(x),
        0x39 => Instruction::DSTORE(x),
        0x17 => Instruction::FLOAD(x),
        0x38 => Instruction::FSTORE(x),
        0x15 => Instruction::ILOAD(x),
        0x36 => Instruction::ISTORE(x),
        0x12 => Instruction::LDC(x),
        0x16 => Instruction::LLOAD(x),
        0x37 => Instruction::LSTORE(x),
        0xbc => Instruction::NEWARRAY(x),
        0xa9 => Instruction::RET(x),
        _ => {
            proof {
                assert(false);
            }
            Instruction::NOP
        },
    };
    assert forall|o: nat| spec_encode_instruction(r, o) == seq![op, x] by {
        assert(spec_encode_instruction(r, o) =~= seq![op, x]);
    }
    r
}

/// The instruction of opcode `op`, which takes a 16-bit operand, with operand `x`.
pub fn with_index_operand(op: u8, x: u16) -> (r: Instruction)
    requires
        spec_operand_group(op) == 2,
    ensures
        forall|o: nat| spec_encode_instruction(r, o) == seq![op] + be16(x),
        !(r is WTF) && !(r is PADDED_INSTRUCTION),
{
    let r = match op {
        0xbd => Instruction::ANEWARRAY(x),
        0xc0 => Instruction::CHECKCAST(x),
        0xb4 => Instruction::GETFIELD(x),
        0xb2 => Instruction::GETSTATIC(x),
        0xc1 => Instruction::INSTANCEOF(x),
        0xb7 => Instruction::INVOKESPECIAL(x),
        0xb8 => Instruction::INVOKESTATIC(x),
        0xb6 => Instruction::INVOKEVIRTUAL(x),
        0x13 => Instruction::LDC_W(x),
        0x14 => Instruction::LDC2_W(x),
        0xbb => Instruction::NEW(x),
        0xb5 => Instruction::PUTFIELD(x),
        0xb3 => Instruction::PUTSTATIC(x),
        0x11 => Instruction::SIPUSH(x),
        _ => {
            proof {
                assert(false);
            }
            Instruction::NOP
        },
    };
    assert forall|o: nat| spec_encode_instruction(r, o) == seq![op] + be16(x) by {
        assert(spec_encode_instruction(r, o) =~= seq![op] + be16(x));
    }
    r
}

/// The instruction of opcode `op`, which takes a 16-bit branch offset, with operand `x`.
pub fn with_branch_offset(op: u8, x: i16) -> (r: Instruction)
    requires
        spec_operand_group(op) == 3,
    ensures
        forall|o: nat| spec_encode_instruction(r, o) == seq![op] + be16(x as u16),
        !(r is WTF) && !(r is PADDED_INSTRUCTION),
{
    let r = match op {
        0xa7 => Instruction::GOTO(x),
        0xa5 => Instruction::IF_ACMPEQ(x),
        0xa6 => Instruction::IF_ACMPNE(x),
        0x9f => Instruction::IF_ICMPEQ(x),
        0xa0 => Instruction::IF_ICMPNE(x),
        0xa1 => Instruction::IF_ICMPLT(x),
        0xa2 => Instruction::IF_ICMPGE(x),
        0xa3 => Instruction::IF_ICMPGT(x),
        0xa4 => Instruction::IF_ICMPLE(x),
        0x99 => Instruction::IFEQ(x),
        0x9a => Instruction::IFNE(x),
        0x9b => Instruction::IFLT(x),
        0x9c => Instruction::IFGE(x),
        0x9d => Instruction::IFGT(x),
        0x9e => Instruction::IFLE(x),
        0xc7 => Instruction::IFNONNULL(x),
        0xc6 => Instruction::IFNULL(x),
        0xa8 => Instruction::JSR(x),
        _ => {
            proof {
                assert(false);
            }
            Instruction::NOP
        },
    };
    assert forall|o: nat| spec_encode_instruction(r, o) == seq![op] + be16(x as u16) by {
        assert(spec_encode_instruction(r, o) =~= seq![op] + be16(x as u16));
    }
    r
}

/// The instruction of opcode `op`, which takes a 32-bit branch offset, with operand `x`.
pub fn with_wide_branch_offset(op: u8, x: i32) -> (r: Instruction)
    requires
        spec_operand_group(op) == 4,
    ensures
        forall|o: nat| spec_encode_instruction(r, o) == seq![op] + be32(x as u32),
        !(r is WTF) && !(r is PADDED_INSTRUCTION),
{
    let r = match op {
        0xc8 => Instruction::GOTO_W(x),
        0xc9 => Instruction::JSR_W(x),
        _ => {
            proof {
                assert(false);
            }
            Instruction::NOP
        },
    };
    assert forall|o: nat| spec_encode_instruction(r, o) == seq![op] + be32(x as u32) by {
        assert(spec_encode_instruction(r, o) =~= seq![op] + be32(x as u32));
    }
    r
}

/// The widened form of the load, store or `ret` instruction `op`, with a 16-bit local index.
pub fn widened(op: u8, index: u16) -> (r: Option<Instruction>)
    ensures
        r matches Some(i) ==> forall|o: nat| spec_encode_instruction(i, o) == seq![0xc4u8, op] + be16(index),
        r matches Some(i) ==> !(i is WTF) && !(i is PADDED_INSTRUCTION),
        r is Some <==> wide_member(op),
{
    let r = match op {
        0x15 => Instruction::ILOAD_W(index),
        0x17 => Instruction::FLOAD_W(index),
        0x19 => Instruction::ALOAD_W(index),
        0x16 => Instruction::LLOAD_W(index),
        0x18 => Instruction::DLOAD_W(index),
        0x36 => Instruction::ISTORE_W(index),
        0x38 => Instruction::FSTORE_W(index),
        0x3a => Instruction::ASTORE_W(index),
        0x37 => Instruction::LSTORE_W(index),
        0x39 => Instruction::DSTORE_W(index),
        0xa9 => Instruction::RET_W(index),
        _ => {
            return None;
        },
    };
    assert forall|o: nat| spec_encode_instruction(r, o) == seq![0xc4u8, op] + be16(index) by {
        assert(spec_encode_instruction(r, o) =~= seq![0xc4u8, op] + be16(index));
    }
    Some(r)
}

} // verus!
