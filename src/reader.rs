//! The class-file reader. Every decoder is checked against the byte form of what it
//! returns: the bytes a decoder consumes are exactly the encoding of its result, so a
//! class file that decodes writes back to the same bytes.
use vstd::prelude::*;
use crate::blockreader::{BlockReader, DecodeError, consumed, progress, lemma_consumed_chain, lemma_consumed_nothing};
use crate::bytes::{be16, be32, be64, be16_value, be32_value, lemma_i16_bits, lemma_i32_bits, lemma_i8_bits};
use crate::classfile::{
    Annotation, Attribute, BootstrapMethod, Classfile, ClassfileVersion, Constant, ConstantPool,
    ConstantPoolIndex, ElementValue, ElementValuePair, ExceptionHandler, Field, InnerClass,
    LineNumberTable, LocalVariableTable, LocalVariableTypeTable, Method, MethodParameter,
    StackMapFrame, TargetInfo, TypeAnnotation, TypePath, TypePathKind, VerificationType,
    AccessFlags, ReferenceKind, spec_reference_kind_byte, spec_cp_size, spec_type_path_kind_value,
    spec_target_type, pool_wf, is_first_utf8, is_utf8_of, utf8_index,
};
use crate::encode::{
    attribute_body, attribute_kind, attribute_name_index, concat_map, count16, enc_annotation, enc_annotations,
    enc_attribute, enc_attribute_list, enc_attributes, enc_bootstrap, enc_class, enc_code,
    enc_constant, enc_element_value, enc_element_values, enc_field, enc_frame, enc_handler,
    enc_inner_class, enc_line, enc_local, enc_local_type, enc_method, enc_method_parameter,
    enc_pairs, enc_parameter_annotations, enc_path, enc_pool, enc_target, enc_type_annotation,
    enc_vtype, enc_vtypes, idx16, lemma_concat_map_push,
};
use crate::instruction::{
    Instruction, spec_encode_instruction, spec_operands, spec_opcode, instr_class, lemma_instr_class, wide_member, switch_padding, zeros, pair_bytes, i32_bytes,
    simple_instruction, operand_group, with_byte_operand, with_index_operand, with_branch_offset,
    with_wide_branch_offset, widened, padding_at, lemma_operand_free,
};
use crate::names::{AttributeKind, kind_name, kind_of_name};

verus! {

/// Reads a 16-bit constant-pool index.
fn read_index(r: &mut BlockReader) -> (res: Result<ConstantPoolIndex, DecodeError>)
    requires
        old(r).wf(),
    ensures
        final(r).wf(),
        progress(*old(r), *final(r)),
        res matches Ok(i) ==> consumed(*old(r), *final(r), idx16(i))
            && i.idx == be16_value(old(r).data@[old(r).position as int], old(r).data@[old(r).position + 1]),
        res is Err <==> old(r).remaining() < 2,
        res is Ok ==> final(r).position == old(r).position + 2,
{
    match r.read_u16() {
        Ok(x) => Ok(ConstantPoolIndex::new(x as usize)),
        Err(e) => Err(e),
    }
}

/// Whether `t` is the tag of a constant kind with a payload.
pub open spec fn known_tag(t: u8) -> bool {
    t == 1 || t == 3 || t == 4 || t == 5 || t == 6 || t == 7 || t == 8 || t == 9 || t == 10
        || t == 11 || t == 12 || t == 15 || t == 16 || t == 18
}

/// The pool slots that a constant with tag `t` takes.
pub open spec fn tag_slots(t: u8) -> nat {
    if t == 5 || t == 6 { 2 } else { 1 }
}

/// The bytes a constant starting at `p` takes, tag included (for utf8 as its length field
/// says, where that field is present).
pub open spec fn constant_len(s: Seq<u8>, p: int) -> int {
    let t = s[p];
    if t == 1 {
        if p + 3 <= s.len() { 3 + be16_value(s[p + 1], s[p + 2]) } else { 3 }
    } else if t == 3 || t == 4 {
        5
    } else if t == 5 || t == 6 {
        9
    } else if t == 7 || t == 8 || t == 16 {
        3
    } else if t == 9 || t == 10 || t == 11 || t == 12 || t == 18 {
        5
    } else if t == 15 {
        4
    } else {
        1
    }
}

/// A whole constant starts at `p`: all its bytes are there, and a method handle's kind
/// byte names a kind (1 to 9, or 255 for the unknown kind).
pub open spec fn constant_fits(s: Seq<u8>, p: int) -> bool {
    &&& 0 <= p < s.len()
    &&& p + constant_len(s, p) <= s.len()
    &&& s[p] == 15 ==> (1 <= s[p + 1] <= 9 || s[p + 1] == 255)
}

/// Reads a constant whose tag is that of a utf8 constant.
#[verifier::spinoff_prover]
#[verifier::rlimit(100)]
fn read_utf8_constant(r: &mut BlockReader) -> (res: Result<Constant, DecodeError>)
    requires
        old(r).wf(),
        old(r).position < old(r).data@.len(),
        old(r).data@[old(r).position as int] == 1,
    ensures
        final(r).wf(),
        progress(*old(r), *final(r)),
        res matches Ok(c) ==> consumed(*old(r), *final(r), enc_constant(c)) && !(c is Placeholder)
            && final(r).position == old(r).position + constant_len(old(r).data@, old(r).position as int)
            && spec_cp_size(c) == tag_slots(old(r).data@[old(r).position as int]),
        res is Ok <==> constant_fits(old(r).data@, old(r).position as int),
{
    let ghost s0 = *r;
    let tag = match r.read_u8() {
        Ok(x) => x,
        Err(e) => return Err(e),
    };
    let ghost s1 = *r;
    proof {
        assert(s1.position == s0.position + 1);
        assert(tag == s0.data@[s0.position as int]);
    }
    let c = match tag {
        1 => {
        let ghost t_0 = *r;
        let len = match r.read_u16() {
            Ok(x) => x,
            Err(e) => return Err(e),
        };
        let ghost t_1 = *r;
        let bytes = match r.read_n(len as usize) {
            Ok(x) => x,
            Err(e) => return Err(e),
        };
        let ghost t_2 = *r;
        proof {
            lemma_consumed_chain(t_0, t_1, t_2, be16(len), bytes@);
        }
        proof {
            lemma_consumed_chain(s0, t_0, *r, seq![tag], be16(len) + bytes@);
        }
        Constant::Utf8(bytes)
        },
        _ => {
            proof {
                assert(false);
            }
            return Err(DecodeError::Malformed);
        },
    };
    proof {
        assert(r.data@.subrange(s0.position as int, r.position as int) =~= enc_constant(c));
    }
    Ok(c)
}

/// Reads a constant whose tag is that of a number constant.
#[verifier::spinoff_prover]
#[verifier::rlimit(100)]
fn read_number_constant(r: &mut BlockReader) -> (res: Result<Constant, DecodeError>)
    requires
        old(r).wf(),
        old(r).position < old(r).data@.len(),
        old(r).data@[old(r).position as int] == 3 || old(r).data@[old(r).position as int] == 4 || old(r).data@[old(r).position as int] == 5 || old(r).data@[old(r).position as int] == 6,
    ensures
        final(r).wf(),
        progress(*old(r), *final(r)),
        res matches Ok(c) ==> consumed(*old(r), *final(r), enc_constant(c)) && !(c is Placeholder)
            && final(r).position == old(r).position + constant_len(old(r).data@, old(r).position as int)
            && spec_cp_size(c) == tag_slots(old(r).data@[old(r).position as int]),
        res is Ok <==> constant_fits(old(r).data@, old(r).position as int),
{
    let ghost s0 = *r;
    let tag = match r.read_u8() {
        Ok(x) => x,
        Err(e) => return Err(e),
    };
    let ghost s1 = *r;
    proof {
        assert(s1.position == s0.position + 1);
        assert(tag == s0.data@[s0.position as int]);
    }
    let c = match tag {
        3 => {
        let ghost t_0 = *r;
        let v = match r.read_u32() {
            Ok(x) => x,
            Err(e) => return Err(e),
        };
        let ghost t_1 = *r;
        proof {
            lemma_consumed_chain(s0, t_0, *r, seq![tag], be32(v));
        }
        Constant::Integer(v)
        },
        4 => {
        let ghost t_0 = *r;
        let v = match r.read_u32() {
            Ok(x) => x,
            Err(e) => return Err(e),
        };
        let ghost t_1 = *r;
        proof {
            lemma_consumed_chain(s0, t_0, *r, seq![tag], be32(v));
        }
        Constant::Float(v)
        },
        5 => {
        let ghost t_0 = *r;
        let v = match r.read_u64() {
            Ok(x) => x,
            Err(e) => return Err(e),
        };
        let ghost t_1 = *r;
        proof {
            lemma_consumed_chain(s0, t_0, *r, seq![tag], be64(v));
        }
        Constant::Long(v)
        },
        6 => {
        let ghost t_0 = *r;
        let v = match r.read_u64() {
            Ok(x) => x,
            Err(e) => return Err(e),
        };
        let ghost t_1 = *r;
        proof {
            lemma_consumed_chain(s0, t_0, *r, seq![tag], be64(v));
        }
        Constant::Double(v)
        },
        _ => {
            proof {
                assert(false);
            }
            return Err(DecodeError::Malformed);
        },
    };
    proof {
        assert(r.data@.subrange(s0.position as int, r.position as int) =~= enc_constant(c));
    }
    Ok(c)
}

/// Reads a constant whose tag is that of a reference constant.
#[verifier::spinoff_prover]
#[verifier::rlimit(100)]
fn read_reference_constant(r: &mut BlockReader) -> (res: Result<Constant, DecodeError>)
    requires
        old(r).wf(),
        old(r).position < old(r).data@.len(),
        old(r).data@[old(r).position as int] == 7 || old(r).data@[old(r).position as int] == 8 || old(r).data@[old(r).position as int] == 9 || old(r).data@[old(r).position as int] == 10 || old(r).data@[old(r).position as int] == 11 || old(r).data@[old(r).position as int] == 12 || old(r).data@[old(r).position as int] == 15 || old(r).data@[old(r).position as int] == 16 || old(r).data@[old(r).position as int] == 18,
    ensures
        final(r).wf(),
        progress(*old(r), *final(r)),
        res matches Ok(c) ==> consumed(*old(r), *final(r), enc_constant(c)) && !(c is Placeholder)
            && final(r).position == old(r).position + constant_len(old(r).data@, old(r).position as int)
            && spec_cp_size(c) == tag_slots(old(r).data@[old(r).position as int]),
        res is Ok <==> constant_fits(old(r).data@, old(r).position as int),
{
    let ghost s0 = *r;
    let tag = match r.read_u8() {
        Ok(x) => x,
        Err(e) => return Err(e),
    };
    let ghost s1 = *r;
    proof {
        assert(s1.position == s0.position + 1);
        assert(tag == s0.data@[s0.position as int]);
    }
    let c = match tag {
        7 => {
        let ghost t_0 = *r;
        let i = match read_index(r) {
            Ok(x) => x,
            Err(e) => return Err(e),
        };
        let ghost t_1 = *r;
        proof {
            lemma_consumed_chain(s0, t_0, *r, seq![tag], idx16(i));
        }
        Constant::Class(i)
        },
        8 => {
        let ghost t_0 = *r;
        let i = match read_index(r) {
            Ok(x) => x,
            Err(e) => return Err(e),
        };
        let ghost t_1 = *r;
        proof {
            lemma_consumed_chain(s0, t_0, *r, seq![tag], idx16(i));
        }
        Constant::String(i)
        },
        9 => {
        let ghost t_0 = *r;
        let a = match read_index(r) {
            Ok(x) => x,
            Err(e) => return Err(e),
        };
        let ghost t_1 = *r;
        let b = match read_index(r) {
            Ok(x) => x,
            Err(e) => return Err(e),
        };
        let ghost t_2 = *r;
        proof {
            lemma_consumed_chain(t_0, t_1, t_2, idx16(a), idx16(b));
        }
        proof {
            lemma_consumed_chain(s0, t_0, *r, seq![tag], idx16(a) + idx16(b));
        }
        Constant::FieldRef { class_index: a, name_and_type_index: b }
        },
        10 => {
        let ghost t_0 = *r;
        let a = match read_index(r) {
            Ok(x) => x,
            Err(e) => return Err(e),
        };
        let ghost t_1 = *r;
        let b = match read_index(r) {
            Ok(x) => x,
            Err(e) => return Err(e),
        };
        let ghost t_2 = *r;
        proof {
            lemma_consumed_chain(t_0, t_1, t_2, idx16(a), idx16(b));
        }
        proof {
            lemma_consumed_chain(s0, t_0, *r, seq![tag], idx16(a) + idx16(b));
        }
        Constant::MethodRef { class_index: a, name_and_type_index: b }
        },
        11 => {
        let ghost t_0 = *r;
        let a = match read_index(r) {
            Ok(x) => x,
            Err(e) => return Err(e),
        };
        let ghost t_1 = *r;
        let b = match read_index(r) {
            Ok(x) => x,
            Err(e) => return Err(e),
        };
        let ghost t_2 = *r;
        proof {
            lemma_consumed_chain(t_0, t_1, t_2, idx16(a), idx16(b));
        }
        proof {
            lemma_consumed_chain(s0, t_0, *r, seq![tag], idx16(a) + idx16(b));
        }
        Constant::InterfaceMethodRef { class_index: a, name_and_type_index: b }
        },
        12 => {
        let ghost t_0 = *r;
        let a = match read_index(r) {
            Ok(x) => x,
            Err(e) => return Err(e),
        };
        let ghost t_1 = *r;
        let b = match read_index(r) {
            Ok(x) => x,
            Err(e) => return Err(e),
        };
        let ghost t_2 = *r;
        proof {
            lemma_consumed_chain(t_0, t_1, t_2, idx16(a), idx16(b));
        }
        proof {
            lemma_consumed_chain(s0, t_0, *r, seq![tag], idx16(a) + idx16(b));
        }
        Constant::NameAndType { name_index: a, descriptor_index: b }
        },
        18 => {
        let ghost t_0 = *r;
        let a = match read_index(r) {
            Ok(x) => x,
            Err(e) => return Err(e),
        };
        let ghost t_1 = *r;
        let b = match read_index(r) {
            Ok(x) => x,
            Err(e) => return Err(e),
        };
        let ghost t_2 = *r;
        proof {
            lemma_consumed_chain(t_0, t_1, t_2, idx16(a), idx16(b));
        }
        proof {
            lemma_consumed_chain(s0, t_0, *r, seq![tag], idx16(a) + idx16(b));
        }
        Constant::InvokeDynamic { bootstrap_method_attr_index: a, name_and_type_index: b }
        },
        15 => {
        let ghost t_0 = *r;
        let k = match r.read_u8() {
            Ok(x) => x,
            Err(e) => return Err(e),
        };
        let ghost t_1 = *r;
        let i = match read_index(r) {
            Ok(x) => x,
            Err(e) => return Err(e),
        };
        let ghost t_2 = *r;
        proof {
            lemma_consumed_chain(t_0, t_1, t_2, seq![k], idx16(i));
        }
        let kind = ReferenceKind::from_u8(k);
        if kind.to_u8() != k {
            return Err(DecodeError::Malformed);
        }
        proof {
            lemma_consumed_chain(s0, t_0, *r, seq![tag], seq![k] + idx16(i));
        }
        Constant::MethodHandle { reference_kind: kind, reference_index: i }
        },
        16 => {
        let ghost t_0 = *r;
        let i = match read_index(r) {
            Ok(x) => x,
            Err(e) => return Err(e),
        };
        let ghost t_1 = *r;
        proof {
            lemma_consumed_chain(s0, t_0, *r, seq![tag], idx16(i));
        }
        Constant::MethodType(i)
        },
        _ => {
            proof {
                assert(false);
            }
            return Err(DecodeError::Malformed);
        },
    };
    proof {
        assert(r.data@.subrange(s0.position as int, r.position as int) =~= enc_constant(c));
    }
    Ok(c)
}

/// Reads one constant. An unknown tag gives `Constant::Unknown` and consumes the tag alone;
/// a known one succeeds exactly when all its bytes are there (and, for a method handle, its
/// kind byte names a kind).
fn read_constant(r: &mut BlockReader) -> (res: Result<Constant, DecodeError>)
    requires
        old(r).wf(),
    ensures
        final(r).wf(),
        progress(*old(r), *final(r)),
        res matches Ok(c) ==> consumed(*old(r), *final(r), enc_constant(c)) && !(c is Placeholder)
            && final(r).position == old(r).position + constant_len(old(r).data@, old(r).position as int)
            && spec_cp_size(c) == tag_slots(old(r).data@[old(r).position as int]),
        res is Ok <==> constant_fits(old(r).data@, old(r).position as int),
        old(r).remaining() >= 1 && !known_tag(old(r).data@[old(r).position as int])
            ==> res == Ok::<Constant, DecodeError>(Constant::Unknown(old(r).data@[old(r).position as int])),
{
    if r.position >= r.data.len() {
        return Err(DecodeError::UnexpectedEnd);
    }
    let tag = r.data[r.position];
    if tag == 1 {
        read_utf8_constant(r)
    } else if tag == 3 || tag == 4 || tag == 5 || tag == 6 {
        read_number_constant(r)
    } else if tag == 7 || tag == 8 || tag == 9 || tag == 10 || tag == 11 || tag == 12 || tag == 15 || tag == 16 || tag == 18 {
        read_reference_constant(r)
    } else {
        let ghost s0 = *r;
        let t = match r.read_u8() {
            Ok(x) => x,
            Err(e) => return Err(e),
        };
        proof {
            assert(seq![t] + Seq::<u8>::empty() =~= seq![t]);
            assert(enc_constant(Constant::Unknown(t)) == seq![t]);
        }
        Ok(Constant::Unknown(t))
    }
}

/// Reads the constant pool: its entry count, then constants until the pool holds that many
/// entries, with a placeholder after each Long and Double.
#[verifier::spinoff_prover]
pub fn read_constant_pool(r: &mut BlockReader) -> (res: Result<ConstantPool, DecodeError>)
    requires
        old(r).wf(),
    ensures
        final(r).wf(),
        progress(*old(r), *final(r)),
        res matches Ok(cp) ==> consumed(*old(r), *final(r), enc_pool(cp.constants@)) && pool_wf(cp.constants@),
        res matches Ok(cp) ==> cp.constants@.len() == be16_value(old(r).data@[old(r).position as int], old(r).data@[old(r).position + 1]),
{
    let ghost s0 = *r;
    let count = match r.read_u16() {
        Ok(x) => x,
        Err(e) => return Err(e),
    };
    let ghost s1 = *r;
    if count == 0 {
        return Err(DecodeError::Malformed);
    }
    let mut constants: Vec<Constant> = vec![Constant::Placeholder];
    proof {
        lemma_consumed_nothing(s1);
        assert(constants@.drop_last() =~= Seq::<Constant>::empty());
        assert(concat_map(Seq::<Constant>::empty(), |c: Constant| enc_constant(c)) =~= Seq::<u8>::empty());
        assert(concat_map(constants@, |c: Constant| enc_constant(c)) =~= Seq::<u8>::empty());
    }
    while constants.len() < count as usize
        invariant
            r.wf(),
            s0 == *old(r),
            progress(s0, s1),
            progress(s1, *r),
            consumed(s1, *r, concat_map(constants@, |c: Constant| enc_constant(c))),
            1 <= constants@.len() <= count as int + 1,
            constants@[0] is Placeholder,
            forall|i: int| #![trigger constants@[i]] 0 <= i < constants@.len() && (constants@[i] is Long || constants@[i] is Double)
                ==> i + 1 < constants@.len() && constants@[i + 1] is Placeholder,
            forall|i: int| #![trigger constants@[i]] 1 <= i < constants@.len() && constants@[i] is Placeholder
                ==> (constants@[i - 1] is Long || constants@[i - 1] is Double),
        decreases count as int + 1 - constants@.len(),
    {
        let ghost rb = *r;
        let c = match read_constant(r) {
            Ok(c) => c,
            Err(e) => return Err(e),
        };
        let size = c.cp_size();
        let ghost before = constants@;
        proof {
            lemma_consumed_chain(s1, rb, *r, concat_map(before, |c: Constant| enc_constant(c)), enc_constant(c));
            lemma_concat_map_push(before, c, |c: Constant| enc_constant(c));
        }
        constants.push(c);
        if size == 2 {
            proof {
                lemma_concat_map_push(before.push(c), Constant::Placeholder, |c: Constant| enc_constant(c));
                assert(concat_map(before.push(c), |c: Constant| enc_constant(c)) + Seq::<u8>::empty() =~= concat_map(before.push(c), |c: Constant| enc_constant(c)));
            }
            constants.push(Constant::Placeholder);
        }
    }
    if constants.len() != count as usize {
        return Err(DecodeError::Malformed);
    }
    proof {
        lemma_consumed_chain(s0, s1, *r, be16(count), concat_map(constants@, |c: Constant| enc_constant(c)));
    }
    Ok(ConstantPool::new(constants))
}

fn read_handler(r: &mut BlockReader) -> (res: Result<ExceptionHandler, DecodeError>)
    requires
        old(r).wf(),
    ensures
        final(r).wf(),
        progress(*old(r), *final(r)),
        res matches Ok(x) ==> consumed(*old(r), *final(r), enc_handler(x)),
{
    let ghost t_0 = *r;
    let a = match r.read_u16() {
        Ok(x) => x,
        Err(e) => return Err(e),
    };
    let ghost t_1 = *r;
    let b = match r.read_u16() {
        Ok(x) => x,
        Err(e) => return Err(e),
    };
    let ghost t_2 = *r;
    let c = match r.read_u16() {
        Ok(x) => x,
        Err(e) => return Err(e),
    };
    let ghost t_3 = *r;
    let d = match read_index(r) {
        Ok(x) => x,
        Err(e) => return Err(e),
    };
    let ghost t_4 = *r;
    proof {
        lemma_consumed_chain(t_0, t_1, t_2, be16(a), be16(b));
        lemma_consumed_chain(t_0, t_2, t_3, be16(a) + be16(b), be16(c));
        lemma_consumed_chain(t_0, t_3, t_4, be16(a) + be16(b) + be16(c), idx16(d));
    }
    let x = ExceptionHandler { start_pc: a, end_pc: b, handler_pc: c, catch_type: d };
    proof {
        assert(be16(a) + be16(b) + be16(c) + idx16(d) =~= enc_handler(x));
    }
    Ok(x)
}

fn read_inner_class(r: &mut BlockReader) -> (res: Result<InnerClass, DecodeError>)
    requires
        old(r).wf(),
    ensures
        final(r).wf(),
        progress(*old(r), *final(r)),
        res matches Ok(x) ==> consumed(*old(r), *final(r), enc_inner_class(x)),
{
    let ghost t_0 = *r;
    let a = match read_index(r) {
        Ok(x) => x,
        Err(e) => return Err(e),
    };
    let ghost t_1 = *r;
    let b = match read_index(r) {
        Ok(x) => x,
        Err(e) => return Err(e),
    };
    let ghost t_2 = *r;
    let c = match read_index(r) {
        Ok(x) => x,
        Err(e) => return Err(e),
    };
    let ghost t_3 = *r;
    let d = match r.read_u16() {
        Ok(x) => x,
        Err(e) => return Err(e),
    };
    let ghost t_4 = *r;
    proof {
        lemma_consumed_chain(t_0, t_1, t_2, idx16(a), idx16(b));
        lemma_consumed_chain(t_0, t_2, t_3, idx16(a) + idx16(b), idx16(c));
        lemma_consumed_chain(t_0, t_3, t_4, idx16(a) + idx16(b) + idx16(c), be16(d));
    }
    let x = InnerClass { inner_class_info_index: a, outer_class_info_index: b, inner_name_index: c, access_flags: AccessFlags::of(d) };
    proof {
        assert(idx16(a) + idx16(b) + idx16(c) + be16(d) =~= enc_inner_class(x));
    }
    Ok(x)
}

fn read_line(r: &mut BlockReader) -> (res: Result<LineNumberTable, DecodeError>)
    requires
        old(r).wf(),
    ensures
        final(r).wf(),
        progress(*old(r), *final(r)),
        res matches Ok(x) ==> consumed(*old(r), *final(r), enc_line(x)),
{
    let ghost t_0 = *r;
    let a = match r.read_u16() {
        Ok(x) => x,
        Err(e) => return Err(e),
    };
    let ghost t_1 = *r;
    let b = match r.read_u16() {
        Ok(x) => x,
        Err(e) => return Err(e),
    };
    let ghost t_2 = *r;
    proof {
        lemma_consumed_chain(t_0, t_1, t_2, be16(a), be16(b));
    }
    let x = LineNumberTable { start_pc: a, line_number: b };
    proof {
        assert(be16(a) + be16(b) =~= enc_line(x));
    }
    Ok(x)
}

fn read_local(r: &mut BlockReader) -> (res: Result<LocalVariableTable, DecodeError>)
    requires
        old(r).wf(),
    ensures
        final(r).wf(),
        progress(*old(r), *final(r)),
        res matches Ok(x) ==> consumed(*old(r), *final(r), enc_local(x)),
{
    let ghost t_0 = *r;
    let a = match r.read_u16() {
        Ok(x) => x,
        Err(e) => return Err(e),
    };
    let ghost t_1 = *r;
    let b = match r.read_u16() {
        Ok(x) => x,
        Err(e) => return Err(e),
    };
    let ghost t_2 = *r;
    let c = match read_index(r) {
        Ok(x) => x,
        Err(e) => return Err(e),
    };
    let ghost t_3 = *r;
    let d = match read_index(r) {
        Ok(x) => x,
        Err(e) => return Err(e),
    };
    let ghost t_4 = *r;
    let e = match r.read_u16() {
        Ok(x) => x,
        Err(e) => return Err(e),
    };
    let ghost t_5 = *r;
    proof {
        lemma_consumed_chain(t_0, t_1, t_2, be16(a), be16(b));
        lemma_consumed_chain(t_0, t_2, t_3, be16(a) + be16(b), idx16(c));
        lemma_consumed_chain(t_0, t_3, t_4, be16(a) + be16(b) + idx16(c), idx16(d));
        lemma_consumed_chain(t_0, t_4, t_5, be16(a) + be16(b) + idx16(c) + idx16(d), be16(e));
    }
    let x = LocalVariableTable { start_pc: a, length: b, name_index: c, descriptor_index: d, index: e };
    proof {
        assert(be16(a) + be16(b) + idx16(c) + idx16(d) + be16(e) =~= enc_local(x));
    }
    Ok(x)
}

fn read_local_type(r: &mut BlockReader) -> (res: Result<LocalVariableTypeTable, DecodeError>)
    requires
        old(r).wf(),
    ensures
        final(r).wf(),
        progress(*old(r), *final(r)),
        res matches Ok(x) ==> consumed(*old(r), *final(r), enc_local_type(x)),
{
    let ghost t_0 = *r;
    let a = match r.read_u16() {
        Ok(x) => x,
        Err(e) => return Err(e),
    };
    let ghost t_1 = *r;
    let b = match r.read_u16() {
        Ok(x) => x,
        Err(e) => return Err(e),
    };
    let ghost t_2 = *r;
    let c = match read_index(r) {
        Ok(x) => x,
        Err(e) => return Err(e),
    };
    let ghost t_3 = *r;
    let d = match read_index(r) {
        Ok(x) => x,
        Err(e) => return Err(e),
    };
    let ghost t_4 = *r;
    let e = match r.read_u16() {
        Ok(x) => x,
        Err(e) => return Err(e),
    };
    let ghost t_5 = *r;
    proof {
        lemma_consumed_chain(t_0, t_1, t_2, be16(a), be16(b));
        lemma_consumed_chain(t_0, t_2, t_3, be16(a) + be16(b), idx16(c));
        lemma_consumed_chain(t_0, t_3, t_4, be16(a) + be16(b) + idx16(c), idx16(d));
        lemma_consumed_chain(t_0, t_4, t_5, be16(a) + be16(b) + idx16(c) + idx16(d), be16(e));
    }
    let x = LocalVariableTypeTable { start_pc: a, length: b, name_index: c, signature_index: d, index: e };
    proof {
        assert(be16(a) + be16(b) + idx16(c) + idx16(d) + be16(e) =~= enc_local_type(x));
    }
    Ok(x)
}

fn read_method_parameter(r: &mut BlockReader) -> (res: Result<MethodParameter, DecodeError>)
    requires
        old(r).wf(),
    ensures
        final(r).wf(),
        progress(*old(r), *final(r)),
        res matches Ok(x) ==> consumed(*old(r), *final(r), enc_method_parameter(x)),
{
    let ghost t_0 = *r;
    let a = match read_index(r) {
        Ok(x) => x,
        Err(e) => return Err(e),
    };
    let ghost t_1 = *r;
    let b = match r.read_u16() {
        Ok(x) => x,
        Err(e) => return Err(e),
    };
    let ghost t_2 = *r;
    proof {
        lemma_consumed_chain(t_0, t_1, t_2, idx16(a), be16(b));
    }
    let x = MethodParameter { name_index: a, access_flags: AccessFlags::of(b) };
    proof {
        assert(idx16(a) + be16(b) =~= enc_method_parameter(x));
    }
    Ok(x)
}

fn read_local_var_target(r: &mut BlockReader) -> (res: Result<(u16, u16, u16), DecodeError>)
    requires
        old(r).wf(),
    ensures
        final(r).wf(),
        progress(*old(r), *final(r)),
        res matches Ok(x) ==> consumed(*old(r), *final(r), be16(x.0) + be16(x.1) + be16(x.2)),
{
    let ghost t_0 = *r;
    let a = match r.read_u16() {
        Ok(x) => x,
        Err(e) => return Err(e),
    };
    let ghost t_1 = *r;
    let b = match r.read_u16() {
        Ok(x) => x,
        Err(e) => return Err(e),
    };
    let ghost t_2 = *r;
    let c = match r.read_u16() {
        Ok(x) => x,
        Err(e) => return Err(e),
    };
    let ghost t_3 = *r;
    proof {
        lemma_consumed_chain(t_0, t_1, t_2, be16(a), be16(b));
        lemma_consumed_chain(t_0, t_2, t_3, be16(a) + be16(b), be16(c));
    }
    let x = (a, b, c);
    proof {
        assert(be16(a) + be16(b) + be16(c) =~= be16(x.0) + be16(x.1) + be16(x.2));
    }
    Ok(x)
}

fn read_indices(r: &mut BlockReader, n: usize) -> (res: Result<Vec<ConstantPoolIndex>, DecodeError>)
    requires
        old(r).wf(),
    ensures
        final(r).wf(),
        progress(*old(r), *final(r)),
        res matches Ok(v) ==> v@.len() == n && consumed(*old(r), *final(r), concat_map(v@, |i: ConstantPoolIndex| idx16(i))),
{
    let ghost r0 = *r;
    let mut v: Vec<ConstantPoolIndex> = Vec::new();
    proof {
        lemma_consumed_nothing(r0);
        assert(concat_map(v@, |i: ConstantPoolIndex| idx16(i)) =~= Seq::<u8>::empty());
    }
    let mut k: usize = 0;
    while k < n
        invariant
            r.wf(),
            r0 == *old(r),
            progress(r0, *r),
            consumed(r0, *r, concat_map(v@, |i: ConstantPoolIndex| idx16(i))),
            v@.len() == k,
            k <= n,
        decreases n - k,
    {
        let ghost rb = *r;
        let x = match read_index(r) {
            Ok(x) => x,
            Err(e) => return Err(e),
        };
        proof {
            lemma_consumed_chain(r0, rb, *r, concat_map(v@, |i: ConstantPoolIndex| idx16(i)), idx16(x));
            lemma_concat_map_push(v@, x, |i: ConstantPoolIndex| idx16(i));
        }
        v.push(x);
        k = k + 1;
    }
    Ok(v)
}

fn read_handlers(r: &mut BlockReader, n: usize) -> (res: Result<Vec<ExceptionHandler>, DecodeError>)
    requires
        old(r).wf(),
    ensures
        final(r).wf(),
        progress(*old(r), *final(r)),
        res matches Ok(v) ==> v@.len() == n && consumed(*old(r), *final(r), concat_map(v@, |h: ExceptionHandler| enc_handler(h))),
{
    let ghost r0 = *r;
    let mut v: Vec<ExceptionHandler> = Vec::new();
    proof {
        lemma_consumed_nothing(r0);
        assert(concat_map(v@, |h: ExceptionHandler| enc_handler(h)) =~= Seq::<u8>::empty());
    }
    let mut k: usize = 0;
    while k < n
        invariant
            r.wf(),
            r0 == *old(r),
            progress(r0, *r),
            consumed(r0, *r, concat_map(v@, |h: ExceptionHandler| enc_handler(h))),
            v@.len() == k,
            k <= n,
        decreases n - k,
    {
        let ghost rb = *r;
        let x = match read_handler(r) {
            Ok(x) => x,
            Err(e) => return Err(e),
        };
        proof {
            lemma_consumed_chain(r0, rb, *r, concat_map(v@, |h: ExceptionHandler| enc_handler(h)), enc_handler(x));
            lemma_concat_map_push(v@, x, |h: ExceptionHandler| enc_handler(h));
        }
        v.push(x);
        k = k + 1;
    }
    Ok(v)
}

fn read_inner_classes(r: &mut BlockReader, n: usize) -> (res: Result<Vec<InnerClass>, DecodeError>)
    requires
        old(r).wf(),
    ensures
        final(r).wf(),
        progress(*old(r), *final(r)),
        res matches Ok(v) ==> v@.len() == n && consumed(*old(r), *final(r), concat_map(v@, |c: InnerClass| enc_inner_class(c))),
{
    let ghost r0 = *r;
    let mut v: Vec<InnerClass> = Vec::new();
    proof {
        lemma_consumed_nothing(r0);
        assert(concat_map(v@, |c: InnerClass| enc_inner_class(c)) =~= Seq::<u8>::empty());
    }
    let mut k: usize = 0;
    while k < n
        invariant
            r.wf(),
            r0 == *old(r),
            progress(r0, *r),
            consumed(r0, *r, concat_map(v@, |c: InnerClass| enc_inner_class(c))),
            v@.len() == k,
            k <= n,
        decreases n - k,
    {
        let ghost rb = *r;
        let x = match read_inner_class(r) {
            Ok(x) => x,
            Err(e) => return Err(e),
        };
        proof {
            lemma_consumed_chain(r0, rb, *r, concat_map(v@, |c: InnerClass| enc_inner_class(c)), enc_inner_class(x));
            lemma_concat_map_push(v@, x, |c: InnerClass| enc_inner_class(c));
        }
        v.push(x);
        k = k + 1;
    }
    Ok(v)
}

fn read_lines(r: &mut BlockReader, n: usize) -> (res: Result<Vec<LineNumberTable>, DecodeError>)
    requires
        old(r).wf(),
    ensures
        final(r).wf(),
        progress(*old(r), *final(r)),
        res matches Ok(v) ==> v@.len() == n && consumed(*old(r), *final(r), concat_map(v@, |l: LineNumberTable| enc_line(l))),
{
    let ghost r0 = *r;
    let mut v: Vec<LineNumberTable> = Vec::new();
    proof {
        lemma_consumed_nothing(r0);
        assert(concat_map(v@, |l: LineNumberTable| enc_line(l)) =~= Seq::<u8>::empty());
    }
    let mut k: usize = 0;
    while k < n
        invariant
            r.wf(),
            r0 == *old(r),
            progress(r0, *r),
            consumed(r0, *r, concat_map(v@, |l: LineNumberTable| enc_line(l))),
            v@.len() == k,
            k <= n,
        decreases n - k,
    {
        let ghost rb = *r;
        let x = match read_line(r) {
            Ok(x) => x,
            Err(e) => return Err(e),
        };
        proof {
            lemma_consumed_chain(r0, rb, *r, concat_map(v@, |l: LineNumberTable| enc_line(l)), enc_line(x));
            lemma_concat_map_push(v@, x, |l: LineNumberTable| enc_line(l));
        }
        v.push(x);
        k = k + 1;
    }
    Ok(v)
}

fn read_locals(r: &mut BlockReader, n: usize) -> (res: Result<Vec<LocalVariableTable>, DecodeError>)
    requires
        old(r).wf(),
    ensures
        final(r).wf(),
        progress(*old(r), *final(r)),
        res matches Ok(v) ==> v@.len() == n && consumed(*old(r), *final(r), concat_map(v@, |l: LocalVariableTable| enc_local(l))),
{
    let ghost r0 = *r;
    let mut v: Vec<LocalVariableTable> = Vec::new();
    proof {
        lemma_consumed_nothing(r0);
        assert(concat_map(v@, |l: LocalVariableTable| enc_local(l)) =~= Seq::<u8>::empty());
    }
    let mut k: usize = 0;
    while k < n
        invariant
            r.wf(),
            r0 == *old(r),
            progress(r0, *r),
            consumed(r0, *r, concat_map(v@, |l: LocalVariableTable| enc_local(l))),
            v@.len() == k,
            k <= n,
        decreases n - k,
    {
        let ghost rb = *r;
        let x = match read_local(r) {
            Ok(x) => x,
            Err(e) => return Err(e),
        };
        proof {
            lemma_consumed_chain(r0, rb, *r, concat_map(v@, |l: LocalVariableTable| enc_local(l)), enc_local(x));
            lemma_concat_map_push(v@, x, |l: LocalVariableTable| enc_local(l));
        }
        v.push(x);
        k = k + 1;
    }
    Ok(v)
}

fn read_local_types(r: &mut BlockReader, n: usize) -> (res: Result<Vec<LocalVariableTypeTable>, DecodeError>)
    requires
        old(r).wf(),
    ensures
        final(r).wf(),
        progress(*old(r), *final(r)),
        res matches Ok(v) ==> v@.len() == n && consumed(*old(r), *final(r), concat_map(v@, |l: LocalVariableTypeTable| enc_local_type(l))),
{
    let ghost r0 = *r;
    let mut v: Vec<LocalVariableTypeTable> = Vec::new();
    proof {
        lemma_consumed_nothing(r0);
        assert(concat_map(v@, |l: LocalVariableTypeTable| enc_local_type(l)) =~= Seq::<u8>::empty());
    }
    let mut k: usize = 0;
    while k < n
        invariant
            r.wf(),
            r0 == *old(r),
            progress(r0, *r),
            consumed(r0, *r, concat_map(v@, |l: LocalVariableTypeTable| enc_local_type(l))),
            v@.len() == k,
            k <= n,
        decreases n - k,
    {
        let ghost rb = *r;
        let x = match read_local_type(r) {
            Ok(x) => x,
            Err(e) => return Err(e),
        };
        proof {
            lemma_consumed_chain(r0, rb, *r, concat_map(v@, |l: LocalVariableTypeTable| enc_local_type(l)), enc_local_type(x));
            lemma_concat_map_push(v@, x, |l: LocalVariableTypeTable| enc_local_type(l));
        }
        v.push(x);
        k = k + 1;
    }
    Ok(v)
}

fn read_method_parameters(r: &mut BlockReader, n: usize) -> (res: Result<Vec<MethodParameter>, DecodeError>)
    requires
        old(r).wf(),
    ensures
        final(r).wf(),
        progress(*old(r), *final(r)),
        res matches Ok(v) ==> v@.len() == n && consumed(*old(r), *final(r), concat_map(v@, |p: MethodParameter| enc_method_parameter(p))),
{
    let ghost r0 = *r;
    let mut v: Vec<MethodParameter> = Vec::new();
    proof {
        lemma_consumed_nothing(r0);
        assert(concat_map(v@, |p: MethodParameter| enc_method_parameter(p)) =~= Seq::<u8>::empty());
    }
    let mut k: usize = 0;
    while k < n
        invariant
            r.wf(),
            r0 == *old(r),
            progress(r0, *r),
            consumed(r0, *r, concat_map(v@, |p: MethodParameter| enc_method_parameter(p))),
            v@.len() == k,
            k <= n,
        decreases n - k,
    {
        let ghost rb = *r;
        let x = match read_method_parameter(r) {
            Ok(x) => x,
            Err(e) => return Err(e),
        };
        proof {
            lemma_consumed_chain(r0, rb, *r, concat_map(v@, |p: MethodParameter| enc_method_parameter(p)), enc_method_parameter(x));
            lemma_concat_map_push(v@, x, |p: MethodParameter| enc_method_parameter(p));
        }
        v.push(x);
        k = k + 1;
    }
    Ok(v)
}

fn read_local_var_targets(r: &mut BlockReader, n: usize) -> (res: Result<Vec<(u16, u16, u16)>, DecodeError>)
    requires
        old(r).wf(),
    ensures
        final(r).wf(),
        progress(*old(r), *final(r)),
        res matches Ok(v) ==> v@.len() == n && consumed(*old(r), *final(r), concat_map(v@, |e: (u16, u16, u16)| be16(e.0) + be16(e.1) + be16(e.2))),
{
    let ghost r0 = *r;
    let mut v: Vec<(u16, u16, u16)> = Vec::new();
    proof {
        lemma_consumed_nothing(r0);
        assert(concat_map(v@, |e: (u16, u16, u16)| be16(e.0) + be16(e.1) + be16(e.2)) =~= Seq::<u8>::empty());
    }
    let mut k: usize = 0;
    while k < n
        invariant
            r.wf(),
            r0 == *old(r),
            progress(r0, *r),
            consumed(r0, *r, concat_map(v@, |e: (u16, u16, u16)| be16(e.0) + be16(e.1) + be16(e.2))),
            v@.len() == k,
            k <= n,
        decreases n - k,
    {
        let ghost rb = *r;
        let x = match read_local_var_target(r) {
            Ok(x) => x,
            Err(e) => return Err(e),
        };
        proof {
            lemma_consumed_chain(r0, rb, *r, concat_map(v@, |e: (u16, u16, u16)| be16(e.0) + be16(e.1) + be16(e.2)), be16(x.0) + be16(x.1) + be16(x.2));
            lemma_concat_map_push(v@, x, |e: (u16, u16, u16)| be16(e.0) + be16(e.1) + be16(e.2));
        }
        v.push(x);
        k = k + 1;
    }
    Ok(v)
}

fn read_vtypes(r: &mut BlockReader, n: usize) -> (res: Result<Vec<VerificationType>, DecodeError>)
    requires
        old(r).wf(),
    ensures
        final(r).wf(),
        progress(*old(r), *final(r)),
        res matches Ok(v) ==> v@.len() == n && consumed(*old(r), *final(r), concat_map(v@, |v: VerificationType| enc_vtype(v))),
{
    let ghost r0 = *r;
    let mut v: Vec<VerificationType> = Vec::new();
    proof {
        lemma_consumed_nothing(r0);
        assert(concat_map(v@, |v: VerificationType| enc_vtype(v)) =~= Seq::<u8>::empty());
    }
    let mut k: usize = 0;
    while k < n
        invariant
            r.wf(),
            r0 == *old(r),
            progress(r0, *r),
            consumed(r0, *r, concat_map(v@, |v: VerificationType| enc_vtype(v))),
            v@.len() == k,
            k <= n,
        decreases n - k,
    {
        let ghost rb = *r;
        let x = match read_vtype(r) {
            Ok(x) => x,
            Err(e) => return Err(e),
        };
        proof {
            lemma_consumed_chain(r0, rb, *r, concat_map(v@, |v: VerificationType| enc_vtype(v)), enc_vtype(x));
            lemma_concat_map_push(v@, x, |v: VerificationType| enc_vtype(v));
        }
        v.push(x);
        k = k + 1;
    }
    Ok(v)
}

fn read_frames(r: &mut BlockReader, n: usize) -> (res: Result<Vec<StackMapFrame>, DecodeError>)
    requires
        old(r).wf(),
    ensures
        final(r).wf(),
        progress(*old(r), *final(r)),
        res matches Ok(v) ==> v@.len() == n && consumed(*old(r), *final(r), concat_map(v@, |f: StackMapFrame| enc_frame(f))),
{
    let ghost r0 = *r;
    let mut v: Vec<StackMapFrame> = Vec::new();
    proof {
        lemma_consumed_nothing(r0);
        assert(concat_map(v@, |f: StackMapFrame| enc_frame(f)) =~= Seq::<u8>::empty());
    }
    let mut k: usize = 0;
    while k < n
        invariant
            r.wf(),
            r0 == *old(r),
            progress(r0, *r),
            consumed(r0, *r, concat_map(v@, |f: StackMapFrame| enc_frame(f))),
            v@.len() == k,
            k <= n,
        decreases n - k,
    {
        let ghost rb = *r;
        let x = match read_frame(r) {
            Ok(x) => x,
            Err(e) => return Err(e),
        };
        proof {
            lemma_consumed_chain(r0, rb, *r, concat_map(v@, |f: StackMapFrame| enc_frame(f)), enc_frame(x));
            lemma_concat_map_push(v@, x, |f: StackMapFrame| enc_frame(f));
        }
        v.push(x);
        k = k + 1;
    }
    Ok(v)
}

fn read_bootstraps(r: &mut BlockReader, n: usize) -> (res: Result<Vec<BootstrapMethod>, DecodeError>)
    requires
        old(r).wf(),
    ensures
        final(r).wf(),
        progress(*old(r), *final(r)),
        res matches Ok(v) ==> v@.len() == n && consumed(*old(r), *final(r), concat_map(v@, |b: BootstrapMethod| enc_bootstrap(b))),
{
    let ghost r0 = *r;
    let mut v: Vec<BootstrapMethod> = Vec::new();
    proof {
        lemma_consumed_nothing(r0);
        assert(concat_map(v@, |b: BootstrapMethod| enc_bootstrap(b)) =~= Seq::<u8>::empty());
    }
    let mut k: usize = 0;
    while k < n
        invariant
            r.wf(),
            r0 == *old(r),
            progress(r0, *r),
            consumed(r0, *r, concat_map(v@, |b: BootstrapMethod| enc_bootstrap(b))),
            v@.len() == k,
            k <= n,
        decreases n - k,
    {
        let ghost rb = *r;
        let x = match read_bootstrap(r) {
            Ok(x) => x,
            Err(e) => return Err(e),
        };
        proof {
            lemma_consumed_chain(r0, rb, *r, concat_map(v@, |b: BootstrapMethod| enc_bootstrap(b)), enc_bootstrap(x));
            lemma_concat_map_push(v@, x, |b: BootstrapMethod| enc_bootstrap(b));
        }
        v.push(x);
        k = k + 1;
    }
    Ok(v)
}

fn read_bootstrap(r: &mut BlockReader) -> (res: Result<BootstrapMethod, DecodeError>)
    requires
        old(r).wf(),
    ensures
        final(r).wf(),
        progress(*old(r), *final(r)),
        res matches Ok(x) ==> consumed(*old(r), *final(r), enc_bootstrap(x)),
{
    let ghost t0 = *r;
    let m = match read_index(r) {
        Ok(x) => x,
        Err(e) => return Err(e),
    };
    let ghost t1 = *r;
    let n = match r.read_u16() {
        Ok(x) => x,
        Err(e) => return Err(e),
    };
    let ghost t2 = *r;
    let args = match read_indices(r, n as usize) {
        Ok(x) => x,
        Err(e) => return Err(e),
    };
    proof {
        lemma_consumed_chain(t0, t1, t2, idx16(m), be16(n));
        lemma_consumed_chain(t0, t2, *r, idx16(m) + be16(n), concat_map(args@, |i: ConstantPoolIndex| idx16(i)));
    }
    Ok(BootstrapMethod { bootstrap_method_ref: m, bootstrap_arguments: args })
}

/// Reads a verification type; an unknown tag is malformed.
fn read_vtype(r: &mut BlockReader) -> (res: Result<VerificationType, DecodeError>)
    requires
        old(r).wf(),
    ensures
        final(r).wf(),
        progress(*old(r), *final(r)),
        res matches Ok(x) ==> consumed(*old(r), *final(r), enc_vtype(x)),
{
    let ghost t0 = *r;
    let tag = match r.read_u8() {
        Ok(x) => x,
        Err(e) => return Err(e),
    };
    let ghost t1 = *r;
    let v = match tag {
        0 => VerificationType::Top,
        1 => VerificationType::Integer,
        2 => VerificationType::Float,
        3 => VerificationType::Double,
        4 => VerificationType::Long,
        5 => VerificationType::Null,
        6 => VerificationType::UninitializedThis,
        7 => {
            let i = match read_index(r) {
                Ok(x) => x,
                Err(e) => return Err(e),
            };
            proof {
                lemma_consumed_chain(t0, t1, *r, seq![tag], idx16(i));
            }
            return Ok(VerificationType::Object { cpool_index: i });
        },
        8 => {
            let o = match r.read_u16() {
                Ok(x) => x,
                Err(e) => return Err(e),
            };
            proof {
                lemma_consumed_chain(t0, t1, *r, seq![tag], be16(o));
            }
            return Ok(VerificationType::Uninitialized { offset: o });
        },
        _ => return Err(DecodeError::Malformed),
    };
    Ok(v)
}

/// Reads a stack map frame, dispatching on its tag.
#[verifier::spinoff_prover]
fn read_frame(r: &mut BlockReader) -> (res: Result<StackMapFrame, DecodeError>)
    requires
        old(r).wf(),
    ensures
        final(r).wf(),
        progress(*old(r), *final(r)),
        res matches Ok(x) ==> consumed(*old(r), *final(r), enc_frame(x)),
{
    let ghost t0 = *r;
    let tag = match r.read_u8() {
        Ok(x) => x,
        Err(e) => return Err(e),
    };
    let ghost t1 = *r;
    if tag <= 63 {
        return Ok(StackMapFrame::SameFrame { tag });
    }
    if tag <= 127 {
        let stack = match read_vtype(r) {
            Ok(x) => x,
            Err(e) => return Err(e),
        };
        proof {
            lemma_consumed_chain(t0, t1, *r, seq![tag], enc_vtype(stack));
        }
        return Ok(StackMapFrame::SameLocals1StackItemFrame { tag, stack });
    }
    if tag < 247 {
        return Ok(StackMapFrame::FutureUse { tag });
    }
    let offset_delta = match r.read_u16() {
        Ok(x) => x,
        Err(e) => return Err(e),
    };
    let ghost t2 = *r;
    proof {
        lemma_consumed_chain(t0, t1, t2, seq![tag], be16(offset_delta));
    }
    if tag == 247 {
        let stack = match read_vtype(r) {
            Ok(x) => x,
            Err(e) => return Err(e),
        };
        proof {
            lemma_consumed_chain(t0, t2, *r, seq![tag] + be16(offset_delta), enc_vtype(stack));
        }
        return Ok(StackMapFrame::SameLocals1StackItemFrameExtended { offset_delta, stack });
    }
    if tag <= 250 {
        return Ok(StackMapFrame::ChopFrame { tag, offset_delta });
    }
    if tag == 251 {
        return Ok(StackMapFrame::SameFrameExtended { offset_delta });
    }
    if tag <= 254 {
        let locals = match read_vtypes(r, (tag - 251) as usize) {
            Ok(x) => x,
            Err(e) => return Err(e),
        };
        proof {
            lemma_consumed_chain(t0, t2, *r, seq![tag] + be16(offset_delta), enc_vtypes(locals@));
        }
        return Ok(StackMapFrame::AppendFrame { tag, offset_delta, locals });
    }
    let nl = match r.read_u16() {
        Ok(x) => x,
        Err(e) => return Err(e),
    };
    let ghost t3 = *r;
    let locals = match read_vtypes(r, nl as usize) {
        Ok(x) => x,
        Err(e) => return Err(e),
    };
    let ghost t4 = *r;
    let ns = match r.read_u16() {
        Ok(x) => x,
        Err(e) => return Err(e),
    };
    let ghost t5 = *r;
    let stack = match read_vtypes(r, ns as usize) {
        Ok(x) => x,
        Err(e) => return Err(e),
    };
    proof {
        let h = seq![tag] + be16(offset_delta);
        lemma_consumed_chain(t0, t2, t3, h, be16(nl));
        lemma_consumed_chain(t0, t3, t4, h + be16(nl), enc_vtypes(locals@));
        lemma_consumed_chain(t0, t4, t5, h + be16(nl) + enc_vtypes(locals@), be16(ns));
        lemma_consumed_chain(t0, t5, *r, h + be16(nl) + enc_vtypes(locals@) + be16(ns), enc_vtypes(stack@));
    }
    Ok(StackMapFrame::FullFrame { offset_delta, locals, stack })
}

/// An instruction that the decoder reads back: an opcode with its operands, and for a
/// table switch as many targets as its bounds span; a lookup switch's pair count fits its
/// 32-bit field.
pub open spec fn well_formed_instruction(i: Instruction) -> bool {
    &&& !(i is WTF) && !(i is PADDED_INSTRUCTION)
    &&& i matches Instruction::TABLESWITCH(_, lo, hi, t) ==> lo <= hi && t@.len() == hi - lo + 1
    &&& i matches Instruction::LOOKUPSWITCH(_, pairs) ==> pairs@.len() <= u32::MAX
}

/// The bytes `e` stand at position `p` of `s`.
pub open spec fn encoded_at(s: Seq<u8>, p: int, e: Seq<u8>) -> bool {
    &&& 0 <= p
    &&& p + e.len() <= s.len()
    &&& s.subrange(p, p + e.len()) == e
}

pub proof fn lemma_encoded_bytes(s: Seq<u8>, p: int, e: Seq<u8>)
    requires
        encoded_at(s, p, e),
    ensures
        forall|k: int| 0 <= k < e.len() ==> s[p + k] == #[trigger] e[k],
{
    assert forall|k: int| 0 <= k < e.len() implies s[p + k] == #[trigger] e[k] by {
        assert(s.subrange(p, p + e.len())[k] == s[p + k]);
    }
}

pub proof fn lemma_encoded_split(s: Seq<u8>, p: int, a: Seq<u8>, b: Seq<u8>)
    requires
        encoded_at(s, p, a + b),
    ensures
        encoded_at(s, p, a),
        encoded_at(s, p + a.len(), b),
{
    let w = s.subrange(p, p + (a + b).len());
    assert(w == a + b);
    assert forall|k: int| 0 <= k < a.len() implies #[trigger] s.subrange(p, p + a.len())[k] == a[k] by {
        assert(w[k] == s[p + k]);
        assert((a + b)[k] == a[k]);
    }
    assert(s.subrange(p, p + a.len()) =~= a);
    assert forall|k: int| 0 <= k < b.len() implies #[trigger] s.subrange(p + a.len(), p + a.len() + b.len())[k] == b[k] by {
        assert(w[a.len() + k] == s[p + a.len() + k]);
        assert((a + b)[a.len() + k] == b[k]);
    }
    assert(s.subrange(p + a.len(), p + a.len() + b.len()) =~= b);
}

/// A four-byte field reads back as the value written there.
pub proof fn lemma_be32_at(s: Seq<u8>, p: int, x: u32)
    requires
        encoded_at(s, p, be32(x)),
    ensures
        be32_value(s[p], s[p + 1], s[p + 2], s[p + 3]) == x,
{
    lemma_encoded_bytes(s, p, be32(x));
    assert(s[p] == be32(x)[0] && s[p + 1] == be32(x)[1] && s[p + 2] == be32(x)[2] && s[p + 3] == be32(x)[3]);
    crate::bytes::lemma_be32_value_of(x);
}

/// Where a lookup switch's operands stand at `p`, its fields stand in order after the padding.
pub proof fn lemma_lookupswitch_parts(s: Seq<u8>, p: int, offset: nat, i: Instruction)
    requires
        i is LOOKUPSWITCH,
        well_formed_instruction(i),
        encoded_at(s, p, spec_encode_instruction(i, offset).drop_first()),
    ensures
        ({
            let z = zeros(switch_padding(offset));
            let pairs = i->LOOKUPSWITCH_1;
            &&& encoded_at(s, p, z)
            &&& z.len() == switch_padding(offset)
            &&& p + z.len() + 8 <= s.len()
            &&& be32_value(s[p + z.len() + 4], s[p + z.len() + 5], s[p + z.len() + 6], s[p + z.len() + 7]) == pairs@.len()
            &&& p + z.len() + 8 + 8 * pairs@.len() <= s.len()
        }),
{
    let z = zeros(switch_padding(offset));
    let d = i->LOOKUPSWITCH_0;
    let pairs = i->LOOKUPSWITCH_1;
    let e = spec_encode_instruction(i, offset).drop_first();
    assert(e =~= z + be32(d as u32) + be32(pairs@.len() as u32) + pair_bytes(pairs@));
    lemma_encoded_split(s, p, z + be32(d as u32) + be32(pairs@.len() as u32), pair_bytes(pairs@));
    lemma_encoded_split(s, p, z + be32(d as u32), be32(pairs@.len() as u32));
    lemma_encoded_split(s, p, z, be32(d as u32));
    lemma_be32_at(s, p + z.len() + 4, pairs@.len() as u32);
    crate::instruction::lemma_pair_bytes_len(pairs@);
}

/// Where a table switch's operands stand at `p`, its fields stand in order after the padding.
pub proof fn lemma_tableswitch_parts(s: Seq<u8>, p: int, offset: nat, i: Instruction)
    requires
        i is TABLESWITCH,
        well_formed_instruction(i),
        encoded_at(s, p, spec_encode_instruction(i, offset).drop_first()),
    ensures
        ({
            let z = zeros(switch_padding(offset));
            &&& encoded_at(s, p, z)
            &&& z.len() == switch_padding(offset)
            &&& p + z.len() + 12 <= s.len()
            &&& (be32_value(s[p + z.len() + 4], s[p + z.len() + 5], s[p + z.len() + 6], s[p + z.len() + 7]) as i32) == i->TABLESWITCH_1
            &&& (be32_value(s[p + z.len() + 8], s[p + z.len() + 9], s[p + z.len() + 10], s[p + z.len() + 11]) as i32) == i->TABLESWITCH_2
            &&& p + z.len() + 12 + 4 * i->TABLESWITCH_3@.len() <= s.len()
        }),
{
    let z = zeros(switch_padding(offset));
    let d = i->TABLESWITCH_0;
    let lo = i->TABLESWITCH_1;
    let hi = i->TABLESWITCH_2;
    let t = i->TABLESWITCH_3;
    let e = spec_encode_instruction(i, offset).drop_first();
    assert(e =~= z + be32(d as u32) + be32(lo as u32) + be32(hi as u32) + i32_bytes(t@));
    lemma_encoded_split(s, p, z + be32(d as u32) + be32(lo as u32) + be32(hi as u32), i32_bytes(t@));
    lemma_encoded_split(s, p, z + be32(d as u32) + be32(lo as u32), be32(hi as u32));
    lemma_encoded_split(s, p, z + be32(d as u32), be32(lo as u32));
    lemma_encoded_split(s, p, z, be32(d as u32));
    lemma_be32_at(s, p + z.len() + 4, lo as u32);
    lemma_be32_at(s, p + z.len() + 8, hi as u32);
    crate::bytes::lemma_i32_round(lo);
    crate::bytes::lemma_i32_round(hi);
    crate::instruction::lemma_i32_bytes_len(t@);
}

/// Reads the operands of `iinc`.
fn parse_iinc(r: &mut BlockReader, offset: usize) -> (res: Result<Instruction, DecodeError>)
    requires
        old(r).wf(),
    ensures
        final(r).wf(),
        progress(*old(r), *final(r)),
        res matches Ok(i) ==> spec_encode_instruction(i, offset as nat).len() >= 1 && !(i is WTF) && !(i is PADDED_INSTRUCTION)
            && spec_encode_instruction(i, offset as nat)[0] == 0x84u8
            && consumed(*old(r), *final(r), spec_encode_instruction(i, offset as nat).drop_first()),
        (exists|i: Instruction| well_formed_instruction(i) && instr_class(i) == 5 && #[trigger] encoded_at(old(r).data@, old(r).position as int, spec_encode_instruction(i, offset as nat).drop_first())) ==> res is Ok,
{
    let ghost t1 = *r;
    let x = match r.read_u8() {
        Ok(x) => x,
        Err(e) => {
                proof {
                    assert forall|i: Instruction| well_formed_instruction(i) && instr_class(i) == 5 && #[trigger] encoded_at(t1.data@, t1.position as int, spec_encode_instruction(i, offset as nat).drop_first()) implies false by {
                        lemma_instr_class(i, offset as nat);
                        let e = spec_encode_instruction(i, offset as nat).drop_first();
                        lemma_encoded_bytes(t1.data@, t1.position as int, e);
                    }
                }
                return Err(e);
            },
    };
    let ghost t2 = *r;
    let c = match r.read_u8() {
        Ok(x) => x,
        Err(e) => {
                proof {
                    assert forall|i: Instruction| well_formed_instruction(i) && instr_class(i) == 5 && #[trigger] encoded_at(t1.data@, t1.position as int, spec_encode_instruction(i, offset as nat).drop_first()) implies false by {
                        lemma_instr_class(i, offset as nat);
                        let e = spec_encode_instruction(i, offset as nat).drop_first();
                        lemma_encoded_bytes(t1.data@, t1.position as int, e);
                    }
                }
                return Err(e);
            },
    };
    let i = Instruction::IINC(x, c as i8);
    proof {
        lemma_i8_bits(c);
        lemma_consumed_chain(t1, t2, *r, seq![x], seq![c]);
        assert(seq![x] + seq![c] =~= spec_encode_instruction(i, offset as nat).drop_first());
    }
    Ok(i)
}

/// Reads the operands of `invokedynamic` (two zero bytes after the index), `invokeinterface`
/// (a count and a zero byte) or `multianewarray`.
#[verifier::spinoff_prover]
fn parse_invoke(r: &mut BlockReader, op: u8, offset: usize) -> (res: Result<Instruction, DecodeError>)
    requires
        old(r).wf(),
    ensures
        final(r).wf(),
        progress(*old(r), *final(r)),
        res matches Ok(i) ==> spec_encode_instruction(i, offset as nat).len() >= 1 && !(i is WTF) && !(i is PADDED_INSTRUCTION)
            && spec_encode_instruction(i, offset as nat)[0] == op
            && consumed(*old(r), *final(r), spec_encode_instruction(i, offset as nat).drop_first()),
        (exists|i: Instruction| well_formed_instruction(i) && spec_opcode(i) == op && (instr_class(i) == 6 || instr_class(i) == 7 || instr_class(i) == 8) && #[trigger] encoded_at(old(r).data@, old(r).position as int, spec_encode_instruction(i, offset as nat).drop_first())) ==> res is Ok,
{
    let ghost t1 = *r;
    let x = match r.read_u16() {
        Ok(x) => x,
        Err(e) => {
                proof {
                    assert forall|i: Instruction| well_formed_instruction(i) && spec_opcode(i) == op && (instr_class(i) == 6 || instr_class(i) == 7 || instr_class(i) == 8) && #[trigger] encoded_at(t1.data@, t1.position as int, spec_encode_instruction(i, offset as nat).drop_first()) implies false by {
                        lemma_instr_class(i, offset as nat);
                        let e = spec_encode_instruction(i, offset as nat).drop_first();
                        lemma_encoded_bytes(t1.data@, t1.position as int, e);
                        if e.len() > 3 {
                        assert(t1.data@[t1.position + 3] == e[3]);
                    }
                    if e.len() > 2 {
                        assert(t1.data@[t1.position + 2] == e[2]);
                    }
                    if i is INVOKEDYNAMIC {
                            assert(e =~= be16(i->INVOKEDYNAMIC_0) + seq![0u8, 0u8]);
                        }
                        if i is INVOKEINTERFACE {
                            assert(e =~= be16(i->INVOKEINTERFACE_0) + seq![i->INVOKEINTERFACE_1, 0u8]);
                        }
                        if i is MULTIANEWARRAY {
                            assert(e =~= be16(i->MULTIANEWARRAY_0) + seq![i->MULTIANEWARRAY_1]);
                        }
                    }
                }
                return Err(e);
            },
    };
    let ghost t2 = *r;
    let a = match r.read_u8() {
        Ok(x) => x,
        Err(e) => {
                proof {
                    assert forall|i: Instruction| well_formed_instruction(i) && spec_opcode(i) == op && (instr_class(i) == 6 || instr_class(i) == 7 || instr_class(i) == 8) && #[trigger] encoded_at(t1.data@, t1.position as int, spec_encode_instruction(i, offset as nat).drop_first()) implies false by {
                        lemma_instr_class(i, offset as nat);
                        let e = spec_encode_instruction(i, offset as nat).drop_first();
                        lemma_encoded_bytes(t1.data@, t1.position as int, e);
                        if e.len() > 3 {
                        assert(t1.data@[t1.position + 3] == e[3]);
                    }
                    if e.len() > 2 {
                        assert(t1.data@[t1.position + 2] == e[2]);
                    }
                    if i is INVOKEDYNAMIC {
                            assert(e =~= be16(i->INVOKEDYNAMIC_0) + seq![0u8, 0u8]);
                        }
                        if i is INVOKEINTERFACE {
                            assert(e =~= be16(i->INVOKEINTERFACE_0) + seq![i->INVOKEINTERFACE_1, 0u8]);
                        }
                        if i is MULTIANEWARRAY {
                            assert(e =~= be16(i->MULTIANEWARRAY_0) + seq![i->MULTIANEWARRAY_1]);
                        }
                    }
                }
                return Err(e);
            },
    };
    let ghost t3 = *r;
    proof {
        lemma_consumed_chain(t1, t2, t3, be16(x), seq![a]);
    }
    if op == 0xc5 {
        let i = Instruction::MULTIANEWARRAY(x, a);
        proof {
            assert(be16(x) + seq![a] =~= spec_encode_instruction(i, offset as nat).drop_first());
        }
        return Ok(i);
    }
    let b = match r.read_u8() {
        Ok(x) => x,
        Err(e) => {
                proof {
                    assert forall|i: Instruction| well_formed_instruction(i) && spec_opcode(i) == op && (instr_class(i) == 6 || instr_class(i) == 7 || instr_class(i) == 8) && #[trigger] encoded_at(t1.data@, t1.position as int, spec_encode_instruction(i, offset as nat).drop_first()) implies false by {
                        lemma_instr_class(i, offset as nat);
                        let e = spec_encode_instruction(i, offset as nat).drop_first();
                        lemma_encoded_bytes(t1.data@, t1.position as int, e);
                        if e.len() > 3 {
                        assert(t1.data@[t1.position + 3] == e[3]);
                    }
                    if e.len() > 2 {
                        assert(t1.data@[t1.position + 2] == e[2]);
                    }
                    if i is INVOKEDYNAMIC {
                            assert(e =~= be16(i->INVOKEDYNAMIC_0) + seq![0u8, 0u8]);
                        }
                        if i is INVOKEINTERFACE {
                            assert(e =~= be16(i->INVOKEINTERFACE_0) + seq![i->INVOKEINTERFACE_1, 0u8]);
                        }
                        if i is MULTIANEWARRAY {
                            assert(e =~= be16(i->MULTIANEWARRAY_0) + seq![i->MULTIANEWARRAY_1]);
                        }
                    }
                }
                return Err(e);
            },
    };
    proof {
        lemma_consumed_chain(t1, t3, *r, be16(x) + seq![a], seq![b]);
    }
    if b != 0 {
        let e = DecodeError::Malformed;
        {
                proof {
                    assert forall|i: Instruction| well_formed_instruction(i) && spec_opcode(i) == op && (instr_class(i) == 6 || instr_class(i) == 7 || instr_class(i) == 8) && #[trigger] encoded_at(t1.data@, t1.position as int, spec_encode_instruction(i, offset as nat).drop_first()) implies false by {
                        lemma_instr_class(i, offset as nat);
                        let e = spec_encode_instruction(i, offset as nat).drop_first();
                        lemma_encoded_bytes(t1.data@, t1.position as int, e);
                        if e.len() > 3 {
                        assert(t1.data@[t1.position + 3] == e[3]);
                    }
                    if e.len() > 2 {
                        assert(t1.data@[t1.position + 2] == e[2]);
                    }
                    if i is INVOKEDYNAMIC {
                            assert(e =~= be16(i->INVOKEDYNAMIC_0) + seq![0u8, 0u8]);
                        }
                        if i is INVOKEINTERFACE {
                            assert(e =~= be16(i->INVOKEINTERFACE_0) + seq![i->INVOKEINTERFACE_1, 0u8]);
                        }
                        if i is MULTIANEWARRAY {
                            assert(e =~= be16(i->MULTIANEWARRAY_0) + seq![i->MULTIANEWARRAY_1]);
                        }
                    }
                }
                return Err(e);
            }
    }
    if op == 0xba {
        if a != 0 {
            let e = DecodeError::Malformed;
            {
                    proof {
                        assert forall|i: Instruction| well_formed_instruction(i) && spec_opcode(i) == op && (instr_class(i) == 6 || instr_class(i) == 7 || instr_class(i) == 8) && #[trigger] encoded_at(t1.data@, t1.position as int, spec_encode_instruction(i, offset as nat).drop_first()) implies false by {
                            lemma_instr_class(i, offset as nat);
                            let e = spec_encode_instruction(i, offset as nat).drop_first();
                            lemma_encoded_bytes(t1.data@, t1.position as int, e);
                            if e.len() > 3 {
                        assert(t1.data@[t1.position + 3] == e[3]);
                    }
                    if e.len() > 2 {
                        assert(t1.data@[t1.position + 2] == e[2]);
                    }
                    if i is INVOKEDYNAMIC {
                                assert(e =~= be16(i->INVOKEDYNAMIC_0) + seq![0u8, 0u8]);
                            }
                            if i is INVOKEINTERFACE {
                                assert(e =~= be16(i->INVOKEINTERFACE_0) + seq![i->INVOKEINTERFACE_1, 0u8]);
                            }
                            if i is MULTIANEWARRAY {
                                assert(e =~= be16(i->MULTIANEWARRAY_0) + seq![i->MULTIANEWARRAY_1]);
                            }
                        }
                    }
                    return Err(e);
                }
        }
        let i = Instruction::INVOKEDYNAMIC(x);
        proof {
            assert(be16(x) + seq![a] + seq![b] =~= spec_encode_instruction(i, offset as nat).drop_first());
        }
        return Ok(i);
    }
    if op != 0xb9 {
        let e = DecodeError::Malformed;
        {
                proof {
                    assert forall|i: Instruction| well_formed_instruction(i) && spec_opcode(i) == op && (instr_class(i) == 6 || instr_class(i) == 7 || instr_class(i) == 8) && #[trigger] encoded_at(t1.data@, t1.position as int, spec_encode_instruction(i, offset as nat).drop_first()) implies false by {
                        lemma_instr_class(i, offset as nat);
                        let e = spec_encode_instruction(i, offset as nat).drop_first();
                        lemma_encoded_bytes(t1.data@, t1.position as int, e);
                        if e.len() > 3 {
                        assert(t1.data@[t1.position + 3] == e[3]);
                    }
                    if e.len() > 2 {
                        assert(t1.data@[t1.position + 2] == e[2]);
                    }
                    if i is INVOKEDYNAMIC {
                            assert(e =~= be16(i->INVOKEDYNAMIC_0) + seq![0u8, 0u8]);
                        }
                        if i is INVOKEINTERFACE {
                            assert(e =~= be16(i->INVOKEINTERFACE_0) + seq![i->INVOKEINTERFACE_1, 0u8]);
                        }
                        if i is MULTIANEWARRAY {
                            assert(e =~= be16(i->MULTIANEWARRAY_0) + seq![i->MULTIANEWARRAY_1]);
                        }
                    }
                }
                return Err(e);
            }
    }
    let i = Instruction::INVOKEINTERFACE(x, a);
    proof {
        assert(be16(x) + seq![a] + seq![b] =~= spec_encode_instruction(i, offset as nat).drop_first());
    }
    Ok(i)
}

/// Reads a `wide` instruction after its prefix byte.
#[verifier::spinoff_prover]
fn parse_wide(r: &mut BlockReader, offset: usize) -> (res: Result<Instruction, DecodeError>)
    requires
        old(r).wf(),
    ensures
        final(r).wf(),
        progress(*old(r), *final(r)),
        res matches Ok(i) ==> spec_encode_instruction(i, offset as nat).len() >= 1 && !(i is WTF) && !(i is PADDED_INSTRUCTION)
            && spec_encode_instruction(i, offset as nat)[0] == 0xc4u8
            && consumed(*old(r), *final(r), spec_encode_instruction(i, offset as nat).drop_first()),
        (exists|i: Instruction| well_formed_instruction(i) && instr_class(i) == 9 && #[trigger] encoded_at(old(r).data@, old(r).position as int, spec_encode_instruction(i, offset as nat).drop_first())) ==> res is Ok,
{
    let ghost t1 = *r;
    let sub = match r.read_u8() {
        Ok(x) => x,
        Err(e) => {
                proof {
                    assert forall|i: Instruction| well_formed_instruction(i) && instr_class(i) == 9 && #[trigger] encoded_at(t1.data@, t1.position as int, spec_encode_instruction(i, offset as nat).drop_first()) implies false by {
                        lemma_instr_class(i, offset as nat);
                        let e = spec_encode_instruction(i, offset as nat).drop_first();
                        lemma_encoded_bytes(t1.data@, t1.position as int, e);
                    assert(t1.data@[t1.position as int] == e[0]);
                    assert(e[0] == spec_encode_instruction(i, offset as nat)[1]);
                    }
                }
                return Err(e);
            },
    };
    let ghost t2 = *r;
    let index = match r.read_u16() {
        Ok(x) => x,
        Err(e) => {
                proof {
                    assert forall|i: Instruction| well_formed_instruction(i) && instr_class(i) == 9 && #[trigger] encoded_at(t1.data@, t1.position as int, spec_encode_instruction(i, offset as nat).drop_first()) implies false by {
                        lemma_instr_class(i, offset as nat);
                        let e = spec_encode_instruction(i, offset as nat).drop_first();
                        lemma_encoded_bytes(t1.data@, t1.position as int, e);
                    assert(t1.data@[t1.position as int] == e[0]);
                    assert(e[0] == spec_encode_instruction(i, offset as nat)[1]);
                    }
                }
                return Err(e);
            },
    };
    let ghost t3 = *r;
    proof {
        lemma_consumed_chain(t1, t2, t3, seq![sub], be16(index));
    }
    if sub == 0x84 {
        let c = match r.read_u16() {
            Ok(x) => x,
            Err(e) => {
                proof {
                    assert forall|i: Instruction| well_formed_instruction(i) && instr_class(i) == 9 && #[trigger] encoded_at(t1.data@, t1.position as int, spec_encode_instruction(i, offset as nat).drop_first()) implies false by {
                        lemma_instr_class(i, offset as nat);
                        let e = spec_encode_instruction(i, offset as nat).drop_first();
                        lemma_encoded_bytes(t1.data@, t1.position as int, e);
                    assert(t1.data@[t1.position as int] == e[0]);
                    assert(e[0] == spec_encode_instruction(i, offset as nat)[1]);
                    }
                }
                return Err(e);
            },
        };
        let i = Instruction::IINC_W(index, c as i16);
        proof {
            lemma_i16_bits(c);
            lemma_consumed_chain(t1, t3, *r, seq![sub] + be16(index), be16(c));
            assert(seq![sub] + be16(index) + be16(c) =~= spec_encode_instruction(i, offset as nat).drop_first());
        }
        return Ok(i);
    }
    match widened(sub, index) {
        Some(i) => {
            proof {
                assert(seq![sub] + be16(index) =~= spec_encode_instruction(i, offset as nat).drop_first());
            }
            Ok(i)
        },
        None => {
            let e = DecodeError::Malformed;
            {
                    proof {
                        assert forall|i: Instruction| well_formed_instruction(i) && instr_class(i) == 9 && #[trigger] encoded_at(t1.data@, t1.position as int, spec_encode_instruction(i, offset as nat).drop_first()) implies false by {
                            lemma_instr_class(i, offset as nat);
                            let e = spec_encode_instruction(i, offset as nat).drop_first();
                            lemma_encoded_bytes(t1.data@, t1.position as int, e);
                    assert(t1.data@[t1.position as int] == e[0]);
                    assert(e[0] == spec_encode_instruction(i, offset as nat)[1]);
                        }
                    }
                    return Err(e);
                }
        },
    }
}

/// Reads the zero padding before the operands of a switch at `offset`.
fn read_padding(r: &mut BlockReader, offset: usize) -> (res: Result<(), DecodeError>)
    requires
        old(r).wf(),
    ensures
        final(r).wf(),
        progress(*old(r), *final(r)),
        res is Ok ==> consumed(*old(r), *final(r), zeros(switch_padding(offset as nat))),
        encoded_at(old(r).data@, old(r).position as int, zeros(switch_padding(offset as nat))) ==> res is Ok,
{
    let pad = padding_at(offset);
    let zs = match r.read_n(pad) {
        Ok(x) => x,
        Err(e) => return Err(e),
    };
    let mut z: usize = 0;
    while z < pad
        invariant
            r.wf(),
            progress(*old(r), *r),
            consumed(*old(r), *r, zs@),
            zs@.len() == pad,
            pad == switch_padding(offset as nat),
            0 <= z <= pad,
            forall|k: int| 0 <= k < z ==> zs@[k] == 0u8,
        decreases pad - z,
    {
        if zs[z] != 0 {
            proof {
                if encoded_at(old(r).data@, old(r).position as int, zeros(switch_padding(offset as nat))) {
                    assert(zeros(switch_padding(offset as nat)).len() == pad);
                    assert(zs@ == zeros(switch_padding(offset as nat)));
                    assert(zs@[z as int] == 0u8);
                }
            }
            return Err(DecodeError::Malformed);
        }
        z = z + 1;
    }
    proof {
        assert(zs@ =~= zeros(switch_padding(offset as nat)));
    }
    Ok(())
}

/// Reads `n` (match, target) pairs of a lookup table.
fn read_match_pairs(r: &mut BlockReader, n: u32) -> (res: Result<Vec<(i32, i32)>, DecodeError>)
    requires
        old(r).wf(),
    ensures
        final(r).wf(),
        progress(*old(r), *final(r)),
        res matches Ok(v) ==> consumed(*old(r), *final(r), pair_bytes(v@)) && v@.len() == n,
        old(r).remaining() >= 8 * n ==> res is Ok,
{
    let ghost t4 = *r;
    let mut pairs: Vec<(i32, i32)> = Vec::new();
    let mut k: u32 = 0;
    proof {
        lemma_consumed_nothing(t4);
    }
    while k < n
        invariant
            r.wf(),
            old(r).remaining() >= 8 * n ==> r.remaining() >= 8 * (n - k),
            progress(t4, *r),
            consumed(t4, *r, pair_bytes(pairs@)),
            pairs@.len() == k,
            k <= n,
            t4 == *old(r),
        decreases n - k,
    {
        let ghost tb = *r;
        let a = match r.read_u32() {
            Ok(x) => x,
            Err(e) => return Err(e),
        };
        let ghost tc = *r;
        let b = match r.read_u32() {
            Ok(x) => x,
            Err(e) => return Err(e),
        };
        proof {
            lemma_i32_bits(a);
            lemma_i32_bits(b);
            lemma_consumed_chain(t4, tb, tc, pair_bytes(pairs@), be32(a));
            lemma_consumed_chain(t4, tc, *r, pair_bytes(pairs@) + be32(a), be32(b));
            assert(pairs@.push((a as i32, b as i32)).drop_last() =~= pairs@);
        }
        pairs.push((a as i32, b as i32));
        k = k + 1;
    }
    Ok(pairs)
}

/// Reads the operands of `lookupswitch` at `offset`.
#[verifier::spinoff_prover]
#[verifier::rlimit(100)]
fn parse_lookupswitch(r: &mut BlockReader, offset: usize) -> (res: Result<Instruction, DecodeError>)
    requires
        old(r).wf(),
    ensures
        final(r).wf(),
        progress(*old(r), *final(r)),
        res matches Ok(i) ==> spec_encode_instruction(i, offset as nat).len() >= 1 && !(i is WTF) && !(i is PADDED_INSTRUCTION)
            && spec_encode_instruction(i, offset as nat)[0] == 0xabu8
            && consumed(*old(r), *final(r), spec_encode_instruction(i, offset as nat).drop_first()),
        (exists|i: Instruction| well_formed_instruction(i) && instr_class(i) == 10 && #[trigger] encoded_at(old(r).data@, old(r).position as int, spec_encode_instruction(i, offset as nat).drop_first())) ==> res is Ok,
{
    let ghost t1 = *r;
    match read_padding(r, offset) {
        Ok(()) => {},
        Err(e) => {
            proof {
                assert forall|i: Instruction| well_formed_instruction(i) && instr_class(i) == 10 && #[trigger] encoded_at(t1.data@, t1.position as int, spec_encode_instruction(i, offset as nat).drop_first()) implies false by {
                    lemma_instr_class(i, offset as nat);
                    lemma_lookupswitch_parts(t1.data@, t1.position as int, offset as nat, i);
                }
            }
            return Err(e);
        },
    }
    let ghost t2 = *r;
    let ghost zs = zeros(switch_padding(offset as nat));
    let dflt = match r.read_u32() {
        Ok(x) => x,
        Err(e) => {
            proof {
                assert forall|i: Instruction| well_formed_instruction(i) && instr_class(i) == 10 && #[trigger] encoded_at(t1.data@, t1.position as int, spec_encode_instruction(i, offset as nat).drop_first()) implies false by {
                    lemma_instr_class(i, offset as nat);
                    lemma_lookupswitch_parts(t1.data@, t1.position as int, offset as nat, i);
                }
            }
            return Err(e);
        },
    };
    let ghost t3 = *r;
    let n = match r.read_u32() {
        Ok(x) => x,
        Err(e) => {
            proof {
                assert forall|i: Instruction| well_formed_instruction(i) && instr_class(i) == 10 && #[trigger] encoded_at(t1.data@, t1.position as int, spec_encode_instruction(i, offset as nat).drop_first()) implies false by {
                    lemma_instr_class(i, offset as nat);
                    lemma_lookupswitch_parts(t1.data@, t1.position as int, offset as nat, i);
                }
            }
            return Err(e);
        },
    };
    let ghost t4 = *r;
    proof {
        lemma_i32_bits(dflt);
        lemma_consumed_chain(t1, t2, t3, zs, be32(dflt));
        lemma_consumed_chain(t1, t3, t4, zs + be32(dflt), be32(n));
    }
    let pairs = match read_match_pairs(r, n) {
        Ok(x) => x,
        Err(e) => {
            proof {
                assert forall|i: Instruction| well_formed_instruction(i) && instr_class(i) == 10 && #[trigger] encoded_at(t1.data@, t1.position as int, spec_encode_instruction(i, offset as nat).drop_first()) implies false by {
                    lemma_instr_class(i, offset as nat);
                    lemma_lookupswitch_parts(t1.data@, t1.position as int, offset as nat, i);
                }
            }
            return Err(e);
        },
    };
    let i = Instruction::LOOKUPSWITCH(dflt as i32, pairs);
    proof {
        lemma_consumed_chain(t1, t4, *r, zs + be32(dflt) + be32(n), pair_bytes(pairs@));
        let ops = zs + be32(dflt) + be32(n) + pair_bytes(pairs@);
        assert(spec_operands(i, offset as nat) == ops);
        assert(spec_encode_instruction(i, offset as nat) == seq![0xabu8] + ops);
        assert((seq![0xabu8] + ops).drop_first() =~= ops);
    }
    Ok(i)
}

/// Reads `count` 32-bit jump targets.
fn read_jump_targets(r: &mut BlockReader, count: u64) -> (res: Result<Vec<i32>, DecodeError>)
    requires
        old(r).wf(),
    ensures
        final(r).wf(),
        progress(*old(r), *final(r)),
        res matches Ok(v) ==> consumed(*old(r), *final(r), i32_bytes(v@)),
        old(r).remaining() >= 4 * count ==> res is Ok,
{
    let ghost t5 = *r;
    let mut targets: Vec<i32> = Vec::new();
    let mut k: u64 = 0;
    proof {
        lemma_consumed_nothing(t5);
    }
    while k < count
        invariant
            r.wf(),
            old(r).remaining() >= 4 * count ==> r.remaining() >= 4 * (count - k),
            t5 == *old(r),
            progress(t5, *r),
            consumed(t5, *r, i32_bytes(targets@)),
            targets@.len() == k,
            k <= count,
        decreases count - k,
    {
        let ghost tb = *r;
        let a = match r.read_u32() {
            Ok(x) => x,
            Err(e) => return Err(e),
        };
        proof {
            lemma_i32_bits(a);
            lemma_consumed_chain(t5, tb, *r, i32_bytes(targets@), be32(a));
            assert(targets@.push(a as i32).drop_last() =~= targets@);
        }
        targets.push(a as i32);
        k = k + 1;
    }
    Ok(targets)
}

/// Reads the operands of `tableswitch` at `offset`; the high bound may not be below the low one.
#[verifier::rlimit(100)]
#[verifier::spinoff_prover]
fn parse_tableswitch(r: &mut BlockReader, offset: usize) -> (res: Result<Instruction, DecodeError>)
    requires
        old(r).wf(),
    ensures
        final(r).wf(),
        progress(*old(r), *final(r)),
        res matches Ok(i) ==> spec_encode_instruction(i, offset as nat).len() >= 1 && !(i is WTF) && !(i is PADDED_INSTRUCTION)
            && spec_encode_instruction(i, offset as nat)[0] == 0xaau8
            && consumed(*old(r), *final(r), spec_encode_instruction(i, offset as nat).drop_first()),
        (exists|i: Instruction| well_formed_instruction(i) && instr_class(i) == 11 && #[trigger] encoded_at(old(r).data@, old(r).position as int, spec_encode_instruction(i, offset as nat).drop_first())) ==> res is Ok,
{
    let ghost t1 = *r;
    match read_padding(r, offset) {
        Ok(()) => {},
        Err(e) => {
            proof {
                assert forall|i: Instruction| well_formed_instruction(i) && instr_class(i) == 11 && #[trigger] encoded_at(t1.data@, t1.position as int, spec_encode_instruction(i, offset as nat).drop_first()) implies false by {
                    lemma_instr_class(i, offset as nat);
                    lemma_tableswitch_parts(t1.data@, t1.position as int, offset as nat, i);
                }
            }
            return Err(e);
        },
    }
    let ghost t2 = *r;
    let ghost zs = zeros(switch_padding(offset as nat));
    let dflt = match r.read_u32() {
        Ok(x) => x,
        Err(e) => {
            proof {
                assert forall|i: Instruction| well_formed_instruction(i) && instr_class(i) == 11 && #[trigger] encoded_at(t1.data@, t1.position as int, spec_encode_instruction(i, offset as nat).drop_first()) implies false by {
                    lemma_instr_class(i, offset as nat);
                    lemma_tableswitch_parts(t1.data@, t1.position as int, offset as nat, i);
                }
            }
            return Err(e);
        },
    };
    let ghost t3 = *r;
    let low = match r.read_u32() {
        Ok(x) => x,
        Err(e) => {
            proof {
                assert forall|i: Instruction| well_formed_instruction(i) && instr_class(i) == 11 && #[trigger] encoded_at(t1.data@, t1.position as int, spec_encode_instruction(i, offset as nat).drop_first()) implies false by {
                    lemma_instr_class(i, offset as nat);
                    lemma_tableswitch_parts(t1.data@, t1.position as int, offset as nat, i);
                }
            }
            return Err(e);
        },
    };
    let ghost t4 = *r;
    let high = match r.read_u32() {
        Ok(x) => x,
        Err(e) => {
            proof {
                assert forall|i: Instruction| well_formed_instruction(i) && instr_class(i) == 11 && #[trigger] encoded_at(t1.data@, t1.position as int, spec_encode_instruction(i, offset as nat).drop_first()) implies false by {
                    lemma_instr_class(i, offset as nat);
                    lemma_tableswitch_parts(t1.data@, t1.position as int, offset as nat, i);
                }
            }
            return Err(e);
        },
    };
    let ghost t5 = *r;
    proof {
        lemma_i32_bits(dflt);
        lemma_i32_bits(low);
        lemma_i32_bits(high);
        lemma_consumed_chain(t1, t2, t3, zs, be32(dflt));
        lemma_consumed_chain(t1, t3, t4, zs + be32(dflt), be32(low));
        lemma_consumed_chain(t1, t4, t5, zs + be32(dflt) + be32(low), be32(high));
    }
    let lo = low as i32;
    let hi = high as i32;
    if hi < lo {
        let e = DecodeError::Malformed;
        {
            proof {
                assert forall|i: Instruction| well_formed_instruction(i) && instr_class(i) == 11 && #[trigger] encoded_at(t1.data@, t1.position as int, spec_encode_instruction(i, offset as nat).drop_first()) implies false by {
                    lemma_instr_class(i, offset as nat);
                    lemma_tableswitch_parts(t1.data@, t1.position as int, offset as nat, i);
                }
            }
            return Err(e);
        }
    }
    let count: u64 = (hi as i64 - lo as i64 + 1) as u64;
    let targets = match read_jump_targets(r, count) {
        Ok(x) => x,
        Err(e) => {
            proof {
                assert forall|i: Instruction| well_formed_instruction(i) && instr_class(i) == 11 && #[trigger] encoded_at(t1.data@, t1.position as int, spec_encode_instruction(i, offset as nat).drop_first()) implies false by {
                    lemma_instr_class(i, offset as nat);
                    lemma_tableswitch_parts(t1.data@, t1.position as int, offset as nat, i);
                }
            }
            return Err(e);
        },
    };
    let i = Instruction::TABLESWITCH(dflt as i32, lo, hi, targets);
    proof {
        lemma_consumed_chain(t1, t5, *r, zs + be32(dflt) + be32(low) + be32(high), i32_bytes(targets@));
        assert(zs + be32(dflt) + be32(low) + be32(high) + i32_bytes(targets@) =~= spec_encode_instruction(i, offset as nat).drop_first());
    }
    Ok(i)
}

/// Reads one instruction whose opcode sits at the reader's position, which is its offset in
/// the code array. Switch padding must be zero bytes, as must the trailing bytes of
/// `invokeinterface` and `invokedynamic`; an unknown opcode is malformed.
#[verifier::spinoff_prover]
pub fn parse_instruction(r: &mut BlockReader) -> (res: Result<Instruction, DecodeError>)
    requires
        old(r).wf(),
    ensures
        final(r).wf(),
        progress(*old(r), *final(r)),
        res matches Ok(i) ==> consumed(*old(r), *final(r), spec_encode_instruction(i, old(r).position as nat))
            && !(i is WTF) && !(i is PADDED_INSTRUCTION),
        (exists|i: Instruction| well_formed_instruction(i)
            && #[trigger] encoded_at(old(r).data@, old(r).position as int, spec_encode_instruction(i, old(r).position as nat)))
            ==> res is Ok,
{
    let ghost t0 = *r;
    let offset = r.position;
    let op = match r.read_u8() {
        Ok(x) => x,
        Err(e) => {
            proof {
                assert forall|i: Instruction| well_formed_instruction(i) && #[trigger] encoded_at(t0.data@, t0.position as int, spec_encode_instruction(i, t0.position as nat)) implies false by {
                    lemma_instr_class(i, t0.position as nat);
                    let e = spec_encode_instruction(i, t0.position as nat);
                    lemma_encoded_bytes(t0.data@, t0.position as int, e);
                    assert(e[0] == t0.data@[t0.position as int]);
                }
            }
            return Err(e);
        },
    };
    let ghost t1 = *r;
    match simple_instruction(op) {
        Some(i) => {
            proof {
                lemma_operand_free(i, offset as nat);
            }
            return Ok(i);
        },
        None => {},
    }
    let group = operand_group(op);
    if group == 1 {
        let x = match r.read_u8() {
            Ok(x) => x,
            Err(e) => {
                proof {
                    assert forall|i: Instruction| well_formed_instruction(i) && #[trigger] encoded_at(t0.data@, t0.position as int, spec_encode_instruction(i, t0.position as nat)) implies false by {
                        lemma_instr_class(i, t0.position as nat);
                        let e = spec_encode_instruction(i, t0.position as nat);
                        lemma_encoded_bytes(t0.data@, t0.position as int, e);
                        assert(e[0] == t0.data@[t0.position as int]);
                    }
                }
                return Err(e);
            },
        };
        proof {
            lemma_consumed_chain(t0, t1, *r, seq![op], seq![x]);
            assert(seq![op] + seq![x] =~= seq![op, x]);
        }
        return Ok(with_byte_operand(op, x));
    }
    if group == 2 {
        let x = match r.read_u16() {
            Ok(x) => x,
            Err(e) => {
                proof {
                    assert forall|i: Instruction| well_formed_instruction(i) && #[trigger] encoded_at(t0.data@, t0.position as int, spec_encode_instruction(i, t0.position as nat)) implies false by {
                        lemma_instr_class(i, t0.position as nat);
                        let e = spec_encode_instruction(i, t0.position as nat);
                        lemma_encoded_bytes(t0.data@, t0.position as int, e);
                        assert(e[0] == t0.data@[t0.position as int]);
                    }
                }
                return Err(e);
            },
        };
        proof {
            lemma_consumed_chain(t0, t1, *r, seq![op], be16(x));
        }
        return Ok(with_index_operand(op, x));
    }
    if group == 3 {
        let x = match r.read_u16() {
            Ok(x) => x,
            Err(e) => {
                proof {
                    assert forall|i: Instruction| well_formed_instruction(i) && #[trigger] encoded_at(t0.data@, t0.position as int, spec_encode_instruction(i, t0.position as nat)) implies false by {
                        lemma_instr_class(i, t0.position as nat);
                        let e = spec_encode_instruction(i, t0.position as nat);
                        lemma_encoded_bytes(t0.data@, t0.position as int, e);
                        assert(e[0] == t0.data@[t0.position as int]);
                    }
                }
                return Err(e);
            },
        };
        proof {
            lemma_consumed_chain(t0, t1, *r, seq![op], be16(x));
            lemma_i16_bits(x);
        }
        return Ok(with_branch_offset(op, x as i16));
    }
    if group == 4 {
        let x = match r.read_u32() {
            Ok(x) => x,
            Err(e) => {
                proof {
                    assert forall|i: Instruction| well_formed_instruction(i) && #[trigger] encoded_at(t0.data@, t0.position as int, spec_encode_instruction(i, t0.position as nat)) implies false by {
                        lemma_instr_class(i, t0.position as nat);
                        let e = spec_encode_instruction(i, t0.position as nat);
                        lemma_encoded_bytes(t0.data@, t0.position as int, e);
                        assert(e[0] == t0.data@[t0.position as int]);
                    }
                }
                return Err(e);
            },
        };
        proof {
            lemma_consumed_chain(t0, t1, *r, seq![op], be32(x));
            lemma_i32_bits(x);
        }
        return Ok(with_wide_branch_offset(op, x as i32));
    }
    let res = if op == 0x84 {
        parse_iinc(r, offset)
    } else if op == 0xba || op == 0xb9 || op == 0xc5 {
        parse_invoke(r, op, offset)
    } else if op == 0xc4 {
        parse_wide(r, offset)
    } else if op == 0xab {
        parse_lookupswitch(r, offset)
    } else if op == 0xaa {
        parse_tableswitch(r, offset)
    } else {
        let e = DecodeError::Malformed;
        {
            proof {
                assert forall|i: Instruction| well_formed_instruction(i) && #[trigger] encoded_at(t0.data@, t0.position as int, spec_encode_instruction(i, t0.position as nat)) implies false by {
                    lemma_instr_class(i, t0.position as nat);
                    let e = spec_encode_instruction(i, t0.position as nat);
                    lemma_encoded_bytes(t0.data@, t0.position as int, e);
                    assert(e[0] == t0.data@[t0.position as int]);
                }
            }
            return Err(e);
        }
    };
    match res {
        Ok(i) => {
            proof {
                let e = spec_encode_instruction(i, offset as nat);
                lemma_consumed_chain(t0, t1, *r, seq![op], e.drop_first());
                assert(seq![op] + e.drop_first() =~= e);
            }
            Ok(i)
        },
        Err(e) => {
            proof {
                assert forall|i: Instruction| well_formed_instruction(i) && #[trigger] encoded_at(t0.data@, t0.position as int, spec_encode_instruction(i, t0.position as nat)) implies false by {
                    lemma_instr_class(i, t0.position as nat);
                    let e = spec_encode_instruction(i, t0.position as nat);
                    lemma_encoded_bytes(t0.data@, t0.position as int, e);
                    assert(e[0] == t0.data@[t0.position as int]);
                    assert(e =~= seq![e[0]] + e.drop_first());
                    lemma_encoded_split(t0.data@, t0.position as int, seq![e[0]], e.drop_first());
                }
            }
            return Err(e);
        },
    }
}

/// Decodes a whole code array into instructions; each instruction's offset is the number of
/// code bytes before it, and every byte must belong to an instruction.
#[verifier::spinoff_prover]
pub fn parse_code(code: Vec<u8>) -> (res: Result<Vec<Instruction>, DecodeError>)
    ensures
        res matches Ok(v) ==> enc_code(v@) == code@,
{
    let mut r = BlockReader::new(code);
    let ghost r0 = r;
    let mut instructions: Vec<Instruction> = Vec::new();
    proof {
        lemma_consumed_nothing(r0);
    }
    while !r.at_end()
        invariant
            r.wf(),
            progress(r0, r),
            r0.position == 0,
            r0.data@ == code@,
            consumed(r0, r, enc_code(instructions@)),
        decreases r.data@.len() - r.position,
    {
        let ghost rb = r;
        let before = r.position;
        let i = match parse_instruction(&mut r) {
            Ok(i) => i,
            Err(e) => return Err(e),
        };
        proof {
            assert(rb.position == enc_code(instructions@).len());
            lemma_consumed_chain(r0, rb, r, enc_code(instructions@), spec_encode_instruction(i, rb.position as nat));
            assert(instructions@.push(i).drop_last() =~= instructions@);
        }
        instructions.push(i);
        if r.position == before {
            return Err(DecodeError::Malformed);
        }
    }
    proof {
        assert(r.data@.subrange(0, r.data@.len() as int) =~= code@);
    }
    Ok(instructions)
}


/// Reads an annotation: type index, pair count, pairs.
pub fn read_annotation(r: &mut BlockReader) -> (res: Result<Annotation, DecodeError>)
    requires
        old(r).wf(),
    ensures
        final(r).wf(),
        progress(*old(r), *final(r)),
        res matches Ok(a) ==> consumed(*old(r), *final(r), enc_annotation(a)),
    decreases old(r).remaining(), 0int,
{
    let ghost t0 = *r;
    let ti = match read_index(r) {
        Ok(x) => x,
        Err(e) => return Err(e),
    };
    let ghost t1 = *r;
    let n = match r.read_u16() {
        Ok(x) => x,
        Err(e) => return Err(e),
    };
    let ghost t2 = *r;
    proof {
        assert(idx16(ti).len() == 2);
        assert(be16(n).len() == 2);
        assert(r.remaining() < old(r).remaining());
    }
    let pairs = match read_pairs(r, n as usize) {
        Ok(x) => x,
        Err(e) => return Err(e),
    };
    proof {
        lemma_consumed_chain(t0, t1, t2, idx16(ti), be16(n));
        lemma_consumed_chain(t0, t2, *r, idx16(ti) + be16(n), enc_pairs(pairs@));
    }
    Ok(Annotation { type_index: ti, element_value_pairs: pairs })
}

fn read_pairs(r: &mut BlockReader, n: usize) -> (res: Result<Vec<ElementValuePair>, DecodeError>)
    requires
        old(r).wf(),
    ensures
        final(r).wf(),
        progress(*old(r), *final(r)),
        res matches Ok(v) ==> v@.len() == n && consumed(*old(r), *final(r), enc_pairs(v@)),
    decreases old(r).remaining(), 2int,
{
    let ghost r0 = *r;
    let mut v: Vec<ElementValuePair> = Vec::new();
    proof {
        lemma_consumed_nothing(r0);
    }
    let mut k: usize = 0;
    while k < n
        invariant
            r.wf(),
            r0 == *old(r),
            progress(r0, *r),
            consumed(r0, *r, enc_pairs(v@)),
            v@.len() == k,
            k <= n,
        decreases n - k,
    {
        let ghost rb = *r;
        let name = match read_index(r) {
            Ok(x) => x,
            Err(e) => return Err(e),
        };
        let ghost rc = *r;
        let value = match read_element_value(r) {
            Ok(x) => x,
            Err(e) => return Err(e),
        };
        let p = ElementValuePair { element_name_index: name, value };
        proof {
            lemma_consumed_chain(r0, rb, rc, enc_pairs(v@), idx16(name));
            lemma_consumed_chain(r0, rc, *r, enc_pairs(v@) + idx16(name), enc_element_value(value));
            let s = v@.push(p);
            assert(s.subrange(0, s.len() - 1) =~= v@);
        }
        v.push(p);
        k = k + 1;
    }
    Ok(v)
}

/// Reads an element value, dispatching on its tag; an unknown tag is malformed.
#[verifier::spinoff_prover]
pub fn read_element_value(r: &mut BlockReader) -> (res: Result<ElementValue, DecodeError>)
    requires
        old(r).wf(),
    ensures
        final(r).wf(),
        progress(*old(r), *final(r)),
        res matches Ok(e) ==> consumed(*old(r), *final(r), enc_element_value(e)),
    decreases old(r).remaining(), 1int,
{
    let ghost t0 = *r;
    let tag = match r.read_u8() {
        Ok(x) => x,
        Err(e) => return Err(e),
    };
    let ghost t1 = *r;
    if tag == 66 || tag == 67 || tag == 68 || tag == 70 || tag == 73 || tag == 74 || tag == 83 || tag == 90 || tag == 115 {
        let i = match read_index(r) {
            Ok(x) => x,
            Err(e) => return Err(e),
        };
        proof {
            lemma_consumed_chain(t0, t1, *r, seq![tag], idx16(i));
        }
        return Ok(ElementValue::ConstantValue(tag, i));
    }
    if tag == 101 {
        let a = match read_index(r) {
            Ok(x) => x,
            Err(e) => return Err(e),
        };
        let ghost t2 = *r;
        let b = match read_index(r) {
            Ok(x) => x,
            Err(e) => return Err(e),
        };
        proof {
            lemma_consumed_chain(t0, t1, t2, seq![tag], idx16(a));
            lemma_consumed_chain(t0, t2, *r, seq![tag] + idx16(a), idx16(b));
        }
        return Ok(ElementValue::Enum { type_name_index: a, const_name_index: b });
    }
    if tag == 99 {
        let i = match read_index(r) {
            Ok(x) => x,
            Err(e) => return Err(e),
        };
        proof {
            lemma_consumed_chain(t0, t1, *r, seq![tag], idx16(i));
        }
        return Ok(ElementValue::ClassInfo(i));
    }
    if tag == 64 {
        let a = match read_annotation(r) {
            Ok(x) => x,
            Err(e) => return Err(e),
        };
        proof {
            lemma_consumed_chain(t0, t1, *r, seq![tag], enc_annotation(a));
        }
        return Ok(ElementValue::Annotation(a));
    }
    if tag == 91 {
        let n = match r.read_u16() {
            Ok(x) => x,
            Err(e) => return Err(e),
        };
        let ghost t2 = *r;
        proof {
            assert(be16(n).len() == 2);
            assert(r.remaining() < old(r).remaining());
        }
        let v = match read_element_values(r, n as usize) {
            Ok(x) => x,
            Err(e) => return Err(e),
        };
        proof {
            lemma_consumed_chain(t0, t1, t2, seq![tag], be16(n));
            lemma_consumed_chain(t0, t2, *r, seq![tag] + be16(n), enc_element_values(v@));
        }
        return Ok(ElementValue::Array(v));
    }
    Err(DecodeError::Malformed)
}

fn read_element_values(r: &mut BlockReader, n: usize) -> (res: Result<Vec<ElementValue>, DecodeError>)
    requires
        old(r).wf(),
    ensures
        final(r).wf(),
        progress(*old(r), *final(r)),
        res matches Ok(v) ==> v@.len() == n && consumed(*old(r), *final(r), enc_element_values(v@)),
    decreases old(r).remaining(), 2int,
{
    let ghost r0 = *r;
    let mut v: Vec<ElementValue> = Vec::new();
    proof {
        lemma_consumed_nothing(r0);
    }
    let mut k: usize = 0;
    while k < n
        invariant
            r.wf(),
            r0 == *old(r),
            progress(r0, *r),
            consumed(r0, *r, enc_element_values(v@)),
            v@.len() == k,
            k <= n,
        decreases n - k,
    {
        let ghost rb = *r;
        let e = match read_element_value(r) {
            Ok(x) => x,
            Err(e) => return Err(e),
        };
        proof {
            lemma_consumed_chain(r0, rb, *r, enc_element_values(v@), enc_element_value(e));
            let s = v@.push(e);
            assert(s.subrange(0, s.len() - 1) =~= v@);
        }
        v.push(e);
        k = k + 1;
    }
    Ok(v)
}

fn read_annotations(r: &mut BlockReader, n: usize) -> (res: Result<Vec<Annotation>, DecodeError>)
    requires
        old(r).wf(),
    ensures
        final(r).wf(),
        progress(*old(r), *final(r)),
        res matches Ok(v) ==> v@.len() == n && consumed(*old(r), *final(r), concat_map(v@, |a: Annotation| enc_annotation(a))),
{
    let ghost r0 = *r;
    let mut v: Vec<Annotation> = Vec::new();
    proof {
        lemma_consumed_nothing(r0);
        assert(concat_map(v@, |a: Annotation| enc_annotation(a)) =~= Seq::<u8>::empty());
    }
    let mut k: usize = 0;
    while k < n
        invariant
            r.wf(),
            r0 == *old(r),
            progress(r0, *r),
            consumed(r0, *r, concat_map(v@, |a: Annotation| enc_annotation(a))),
            v@.len() == k,
            k <= n,
        decreases n - k,
    {
        let ghost rb = *r;
        let x = match read_annotation(r) {
            Ok(x) => x,
            Err(e) => return Err(e),
        };
        proof {
            lemma_consumed_chain(r0, rb, *r, concat_map(v@, |a: Annotation| enc_annotation(a)), enc_annotation(x));
            lemma_concat_map_push(v@, x, |a: Annotation| enc_annotation(a));
        }
        v.push(x);
        k = k + 1;
    }
    Ok(v)
}

fn read_counted_annotations(r: &mut BlockReader) -> (res: Result<Vec<Annotation>, DecodeError>)
    requires
        old(r).wf(),
    ensures
        final(r).wf(),
        progress(*old(r), *final(r)),
        res matches Ok(v) ==> consumed(*old(r), *final(r), count16(v@.len()) + enc_annotations(v@)),
{
    let ghost t0 = *r;
    let n = match r.read_u16() {
        Ok(x) => x,
        Err(e) => return Err(e),
    };
    let ghost t1 = *r;
    let v = match read_annotations(r, n as usize) {
        Ok(x) => x,
        Err(e) => return Err(e),
    };
    proof {
        lemma_consumed_chain(t0, t1, *r, be16(n), enc_annotations(v@));
    }
    Ok(v)
}

fn read_parameter_annotations(r: &mut BlockReader, n: usize) -> (res: Result<Vec<Vec<Annotation>>, DecodeError>)
    requires
        old(r).wf(),
    ensures
        final(r).wf(),
        progress(*old(r), *final(r)),
        res matches Ok(v) ==> v@.len() == n && consumed(*old(r), *final(r), concat_map(v@, |v: Vec<Annotation>| count16(v@.len()) + enc_annotations(v@))),
{
    let ghost r0 = *r;
    let mut v: Vec<Vec<Annotation>> = Vec::new();
    proof {
        lemma_consumed_nothing(r0);
        assert(concat_map(v@, |v: Vec<Annotation>| count16(v@.len()) + enc_annotations(v@)) =~= Seq::<u8>::empty());
    }
    let mut k: usize = 0;
    while k < n
        invariant
            r.wf(),
            r0 == *old(r),
            progress(r0, *r),
            consumed(r0, *r, concat_map(v@, |v: Vec<Annotation>| count16(v@.len()) + enc_annotations(v@))),
            v@.len() == k,
            k <= n,
        decreases n - k,
    {
        let ghost rb = *r;
        let x = match read_counted_annotations(r) {
            Ok(x) => x,
            Err(e) => return Err(e),
        };
        proof {
            lemma_consumed_chain(r0, rb, *r, concat_map(v@, |v: Vec<Annotation>| count16(v@.len()) + enc_annotations(v@)), count16(x@.len()) + enc_annotations(x@));
            lemma_concat_map_push(v@, x, |v: Vec<Annotation>| count16(v@.len()) + enc_annotations(v@));
        }
        v.push(x);
        k = k + 1;
    }
    Ok(v)
}

/// Reads the target of a type annotation, with its target-type byte; an unknown target
/// type is malformed.
#[verifier::spinoff_prover]
fn read_target(r: &mut BlockReader) -> (res: Result<TargetInfo, DecodeError>)
    requires
        old(r).wf(),
    ensures
        final(r).wf(),
        progress(*old(r), *final(r)),
        res matches Ok(t) ==> consumed(*old(r), *final(r), seq![spec_target_type(t)] + enc_target(t)),
{
    let ghost t0 = *r;
    let tag = match r.read_u8() {
        Ok(x) => x,
        Err(e) => return Err(e),
    };
    let ghost t1 = *r;
    if tag <= 0x01 || tag == 0x16 {
        let i = match r.read_u8() {
            Ok(x) => x,
            Err(e) => return Err(e),
        };
        proof {
            lemma_consumed_chain(t0, t1, *r, seq![tag], seq![i]);
        }
        if tag == 0x16 {
            return Ok(TargetInfo::MethodFormalParameter { idx: i });
        }
        return Ok(TargetInfo::TypeParameter { subtype: tag, idx: i });
    }
    if tag == 0x10 || tag == 0x17 || tag == 0x42 || (0x43 <= tag && tag <= 0x46) {
        let i = match r.read_u16() {
            Ok(x) => x,
            Err(e) => return Err(e),
        };
        proof {
            lemma_consumed_chain(t0, t1, *r, seq![tag], be16(i));
        }
        if tag == 0x10 {
            return Ok(TargetInfo::SuperType { idx: i });
        }
        if tag == 0x17 {
            return Ok(TargetInfo::Throws { idx: i });
        }
        if tag == 0x42 {
            return Ok(TargetInfo::Catch { idx: i });
        }
        return Ok(TargetInfo::Offset { subtype: tag, idx: i });
    }
    if tag == 0x11 || tag == 0x12 {
        let a = match r.read_u8() {
            Ok(x) => x,
            Err(e) => return Err(e),
        };
        let ghost t2 = *r;
        let b = match r.read_u8() {
            Ok(x) => x,
            Err(e) => return Err(e),
        };
        proof {
            lemma_consumed_chain(t0, t1, t2, seq![tag], seq![a]);
            lemma_consumed_chain(t0, t2, *r, seq![tag] + seq![a], seq![b]);
            assert(seq![tag] + seq![a] + seq![b] =~= seq![tag] + seq![a, b]);
        }
        return Ok(TargetInfo::TypeParameterBound { subtype: tag, param_idx: a, bound_index: b });
    }
    if 0x13 <= tag && tag <= 0x15 {
        proof {
            assert(seq![tag] + Seq::<u8>::empty() =~= seq![tag]);
        }
        return Ok(TargetInfo::Empty { subtype: tag });
    }
    if tag == 0x40 || tag == 0x41 {
        let n = match r.read_u16() {
            Ok(x) => x,
            Err(e) => return Err(e),
        };
        let ghost t2 = *r;
        let v = match read_local_var_targets(r, n as usize) {
            Ok(x) => x,
            Err(e) => return Err(e),
        };
        proof {
            lemma_consumed_chain(t0, t1, t2, seq![tag], be16(n));
            lemma_consumed_chain(t0, t2, *r, seq![tag] + be16(n), concat_map(v@, |e: (u16, u16, u16)| be16(e.0) + be16(e.1) + be16(e.2)));
            let t = TargetInfo::LocalVar { subtype: tag, target: v };
            assert(seq![tag] + be16(n) + concat_map(v@, |e: (u16, u16, u16)| be16(e.0) + be16(e.1) + be16(e.2)) =~= seq![spec_target_type(t)] + enc_target(t));
        }
        return Ok(TargetInfo::LocalVar { subtype: tag, target: v });
    }
    if 0x47 <= tag && tag <= 0x4b {
        let o = match r.read_u16() {
            Ok(x) => x,
            Err(e) => return Err(e),
        };
        let ghost t2 = *r;
        let a = match r.read_u8() {
            Ok(x) => x,
            Err(e) => return Err(e),
        };
        proof {
            lemma_consumed_chain(t0, t1, t2, seq![tag], be16(o));
            lemma_consumed_chain(t0, t2, *r, seq![tag] + be16(o), seq![a]);
            let t = TargetInfo::TypeArgument { subtype: tag, offset: o, type_arg_idx: a };
            assert(seq![tag] + be16(o) + seq![a] =~= seq![spec_target_type(t)] + enc_target(t));
        }
        return Ok(TargetInfo::TypeArgument { subtype: tag, offset: o, type_arg_idx: a });
    }
    Err(DecodeError::Malformed)
}

fn read_path_step(r: &mut BlockReader) -> (res: Result<(TypePathKind, u8), DecodeError>)
    requires
        old(r).wf(),
    ensures
        final(r).wf(),
        progress(*old(r), *final(r)),
        res matches Ok(e) ==> consumed(*old(r), *final(r), seq![spec_type_path_kind_value(e.0), e.1]),
{
    let ghost t0 = *r;
    let k = match r.read_u8() {
        Ok(x) => x,
        Err(e) => return Err(e),
    };
    let ghost t1 = *r;
    let a = match r.read_u8() {
        Ok(x) => x,
        Err(e) => return Err(e),
    };
    proof {
        lemma_consumed_chain(t0, t1, *r, seq![k], seq![a]);
    }
    let kind = match k {
        0 => TypePathKind::Array,
        1 => TypePathKind::Nested,
        2 => TypePathKind::Wildcard,
        3 => TypePathKind::TypeArgument,
        _ => return Err(DecodeError::Malformed),
    };
    proof {
        assert(seq![k] + seq![a] =~= seq![spec_type_path_kind_value(kind), a]);
    }
    Ok((kind, a))
}

fn read_path_steps(r: &mut BlockReader, n: usize) -> (res: Result<Vec<(TypePathKind, u8)>, DecodeError>)
    requires
        old(r).wf(),
    ensures
        final(r).wf(),
        progress(*old(r), *final(r)),
        res matches Ok(v) ==> v@.len() == n && consumed(*old(r), *final(r), concat_map(v@, |e: (TypePathKind, u8)| seq![spec_type_path_kind_value(e.0), e.1])),
{
    let ghost r0 = *r;
    let mut v: Vec<(TypePathKind, u8)> = Vec::new();
    proof {
        lemma_consumed_nothing(r0);
        assert(concat_map(v@, |e: (TypePathKind, u8)| seq![spec_type_path_kind_value(e.0), e.1]) =~= Seq::<u8>::empty());
    }
    let mut k: usize = 0;
    while k < n
        invariant
            r.wf(),
            r0 == *old(r),
            progress(r0, *r),
            consumed(r0, *r, concat_map(v@, |e: (TypePathKind, u8)| seq![spec_type_path_kind_value(e.0), e.1])),
            v@.len() == k,
            k <= n,
        decreases n - k,
    {
        let ghost rb = *r;
        let x = match read_path_step(r) {
            Ok(x) => x,
            Err(e) => return Err(e),
        };
        proof {
            lemma_consumed_chain(r0, rb, *r, concat_map(v@, |e: (TypePathKind, u8)| seq![spec_type_path_kind_value(e.0), e.1]), seq![spec_type_path_kind_value(x.0), x.1]);
            lemma_concat_map_push(v@, x, |e: (TypePathKind, u8)| seq![spec_type_path_kind_value(e.0), e.1]);
        }
        v.push(x);
        k = k + 1;
    }
    Ok(v)
}

/// Reads a type annotation: target, path, type index, pairs.
#[verifier::spinoff_prover]
fn read_type_annotation(r: &mut BlockReader) -> (res: Result<TypeAnnotation, DecodeError>)
    requires
        old(r).wf(),
    ensures
        final(r).wf(),
        progress(*old(r), *final(r)),
        res matches Ok(t) ==> consumed(*old(r), *final(r), enc_type_annotation(t)),
{
    let ghost t0 = *r;
    let target = match read_target(r) {
        Ok(x) => x,
        Err(e) => return Err(e),
    };
    let ghost t1 = *r;
    let n = match r.read_u8() {
        Ok(x) => x,
        Err(e) => return Err(e),
    };
    let ghost t2 = *r;
    let steps = match read_path_steps(r, n as usize) {
        Ok(x) => x,
        Err(e) => return Err(e),
    };
    let ghost t3 = *r;
    let ti = match read_index(r) {
        Ok(x) => x,
        Err(e) => return Err(e),
    };
    let ghost t4 = *r;
    let m = match r.read_u16() {
        Ok(x) => x,
        Err(e) => return Err(e),
    };
    let ghost t5 = *r;
    let pairs = match read_pairs(r, m as usize) {
        Ok(x) => x,
        Err(e) => return Err(e),
    };
    let path = TypePath { path: steps };
    proof {
        let a = seq![spec_target_type(target)] + enc_target(target);
        let ps = concat_map(steps@, |e: (TypePathKind, u8)| seq![spec_type_path_kind_value(e.0), e.1]);
        lemma_consumed_chain(t0, t1, t2, a, seq![n]);
        lemma_consumed_chain(t0, t2, t3, a + seq![n], ps);
        lemma_consumed_chain(t0, t3, t4, a + seq![n] + ps, idx16(ti));
        lemma_consumed_chain(t0, t4, t5, a + seq![n] + ps + idx16(ti), be16(m));
        lemma_consumed_chain(t0, t5, *r, a + seq![n] + ps + idx16(ti) + be16(m), enc_pairs(pairs@));
        assert(enc_path(path) =~= seq![n] + ps);
        assert(a + seq![n] + ps + idx16(ti) + be16(m) + enc_pairs(pairs@) =~= enc_type_annotation(TypeAnnotation { target_info: target, target_path: path, type_index: ti, element_value_pairs: pairs }));
    }
    Ok(TypeAnnotation { target_info: target, target_path: path, type_index: ti, element_value_pairs: pairs })
}

fn read_type_annotations(r: &mut BlockReader, n: usize) -> (res: Result<Vec<TypeAnnotation>, DecodeError>)
    requires
        old(r).wf(),
    ensures
        final(r).wf(),
        progress(*old(r), *final(r)),
        res matches Ok(v) ==> v@.len() == n && consumed(*old(r), *final(r), concat_map(v@, |t: TypeAnnotation| enc_type_annotation(t))),
{
    let ghost r0 = *r;
    let mut v: Vec<TypeAnnotation> = Vec::new();
    proof {
        lemma_consumed_nothing(r0);
        assert(concat_map(v@, |t: TypeAnnotation| enc_type_annotation(t)) =~= Seq::<u8>::empty());
    }
    let mut k: usize = 0;
    while k < n
        invariant
            r.wf(),
            r0 == *old(r),
            progress(r0, *r),
            consumed(r0, *r, concat_map(v@, |t: TypeAnnotation| enc_type_annotation(t))),
            v@.len() == k,
            k <= n,
        decreases n - k,
    {
        let ghost rb = *r;
        let x = match read_type_annotation(r) {
            Ok(x) => x,
            Err(e) => return Err(e),
        };
        proof {
            lemma_consumed_chain(r0, rb, *r, concat_map(v@, |t: TypeAnnotation| enc_type_annotation(t)), enc_type_annotation(x));
            lemma_concat_map_push(v@, x, |t: TypeAnnotation| enc_type_annotation(t));
        }
        v.push(x);
        k = k + 1;
    }
    Ok(v)
}

fn read_counted_indices(r: &mut BlockReader) -> (res: Result<Vec<ConstantPoolIndex>, DecodeError>)
    requires
        old(r).wf(),
    ensures
        final(r).wf(),
        progress(*old(r), *final(r)),
        res matches Ok(v) ==> consumed(*old(r), *final(r), count16(v@.len()) + concat_map(v@, |i: ConstantPoolIndex| idx16(i))),
{
    let ghost t0 = *r;
    let n = match r.read_u16() {
        Ok(x) => x,
        Err(e) => return Err(e),
    };
    let ghost t1 = *r;
    let v = match read_indices(r, n as usize) {
        Ok(x) => x,
        Err(e) => return Err(e),
    };
    proof {
        lemma_consumed_chain(t0, t1, *r, be16(n), concat_map(v@, |i: ConstantPoolIndex| idx16(i)));
    }
    Ok(v)
}

fn read_counted_handlers(r: &mut BlockReader) -> (res: Result<Vec<ExceptionHandler>, DecodeError>)
    requires
        old(r).wf(),
    ensures
        final(r).wf(),
        progress(*old(r), *final(r)),
        res matches Ok(v) ==> consumed(*old(r), *final(r), count16(v@.len()) + concat_map(v@, |h: ExceptionHandler| enc_handler(h))),
{
    let ghost t0 = *r;
    let n = match r.read_u16() {
        Ok(x) => x,
        Err(e) => return Err(e),
    };
    let ghost t1 = *r;
    let v = match read_handlers(r, n as usize) {
        Ok(x) => x,
        Err(e) => return Err(e),
    };
    proof {
        lemma_consumed_chain(t0, t1, *r, be16(n), concat_map(v@, |h: ExceptionHandler| enc_handler(h)));
    }
    Ok(v)
}

fn read_counted_frames(r: &mut BlockReader) -> (res: Result<Vec<StackMapFrame>, DecodeError>)
    requires
        old(r).wf(),
    ensures
        final(r).wf(),
        progress(*old(r), *final(r)),
        res matches Ok(v) ==> consumed(*old(r), *final(r), count16(v@.len()) + concat_map(v@, |f: StackMapFrame| enc_frame(f))),
{
    let ghost t0 = *r;
    let n = match r.read_u16() {
        Ok(x) => x,
        Err(e) => return Err(e),
    };
    let ghost t1 = *r;
    let v = match read_frames(r, n as usize) {
        Ok(x) => x,
        Err(e) => return Err(e),
    };
    proof {
        lemma_consumed_chain(t0, t1, *r, be16(n), concat_map(v@, |f: StackMapFrame| enc_frame(f)));
    }
    Ok(v)
}

fn read_counted_inner_classes(r: &mut BlockReader) -> (res: Result<Vec<InnerClass>, DecodeError>)
    requires
        old(r).wf(),
    ensures
        final(r).wf(),
        progress(*old(r), *final(r)),
        res matches Ok(v) ==> consumed(*old(r), *final(r), count16(v@.len()) + concat_map(v@, |c: InnerClass| enc_inner_class(c))),
{
    let ghost t0 = *r;
    let n = match r.read_u16() {
        Ok(x) => x,
        Err(e) => return Err(e),
    };
    let ghost t1 = *r;
    let v = match read_inner_classes(r, n as usize) {
        Ok(x) => x,
        Err(e) => return Err(e),
    };
    proof {
        lemma_consumed_chain(t0, t1, *r, be16(n), concat_map(v@, |c: InnerClass| enc_inner_class(c)));
    }
    Ok(v)
}

fn read_counted_lines(r: &mut BlockReader) -> (res: Result<Vec<LineNumberTable>, DecodeError>)
    requires
        old(r).wf(),
    ensures
        final(r).wf(),
        progress(*old(r), *final(r)),
        res matches Ok(v) ==> consumed(*old(r), *final(r), count16(v@.len()) + concat_map(v@, |l: LineNumberTable| enc_line(l))),
{
    let ghost t0 = *r;
    let n = match r.read_u16() {
        Ok(x) => x,
        Err(e) => return Err(e),
    };
    let ghost t1 = *r;
    let v = match read_lines(r, n as usize) {
        Ok(x) => x,
        Err(e) => return Err(e),
    };
    proof {
        lemma_consumed_chain(t0, t1, *r, be16(n), concat_map(v@, |l: LineNumberTable| enc_line(l)));
    }
    Ok(v)
}

fn read_counted_locals(r: &mut BlockReader) -> (res: Result<Vec<LocalVariableTable>, DecodeError>)
    requires
        old(r).wf(),
    ensures
        final(r).wf(),
        progress(*old(r), *final(r)),
        res matches Ok(v) ==> consumed(*old(r), *final(r), count16(v@.len()) + concat_map(v@, |l: LocalVariableTable| enc_local(l))),
{
    let ghost t0 = *r;
    let n = match r.read_u16() {
        Ok(x) => x,
        Err(e) => return Err(e),
    };
    let ghost t1 = *r;
    let v = match read_locals(r, n as usize) {
        Ok(x) => x,
        Err(e) => return Err(e),
    };
    proof {
        lemma_consumed_chain(t0, t1, *r, be16(n), concat_map(v@, |l: LocalVariableTable| enc_local(l)));
    }
    Ok(v)
}

fn read_counted_local_types(r: &mut BlockReader) -> (res: Result<Vec<LocalVariableTypeTable>, DecodeError>)
    requires
        old(r).wf(),
    ensures
        final(r).wf(),
        progress(*old(r), *final(r)),
        res matches Ok(v) ==> consumed(*old(r), *final(r), count16(v@.len()) + concat_map(v@, |l: LocalVariableTypeTable| enc_local_type(l))),
{
    let ghost t0 = *r;
    let n = match r.read_u16() {
        Ok(x) => x,
        Err(e) => return Err(e),
    };
    let ghost t1 = *r;
    let v = match read_local_types(r, n as usize) {
        Ok(x) => x,
        Err(e) => return Err(e),
    };
    proof {
        lemma_consumed_chain(t0, t1, *r, be16(n), concat_map(v@, |l: LocalVariableTypeTable| enc_local_type(l)));
    }
    Ok(v)
}

fn read_counted_type_annotations(r: &mut BlockReader) -> (res: Result<Vec<TypeAnnotation>, DecodeError>)
    requires
        old(r).wf(),
    ensures
        final(r).wf(),
        progress(*old(r), *final(r)),
        res matches Ok(v) ==> consumed(*old(r), *final(r), count16(v@.len()) + concat_map(v@, |t: TypeAnnotation| enc_type_annotation(t))),
{
    let ghost t0 = *r;
    let n = match r.read_u16() {
        Ok(x) => x,
        Err(e) => return Err(e),
    };
    let ghost t1 = *r;
    let v = match read_type_annotations(r, n as usize) {
        Ok(x) => x,
        Err(e) => return Err(e),
    };
    proof {
        lemma_consumed_chain(t0, t1, *r, be16(n), concat_map(v@, |t: TypeAnnotation| enc_type_annotation(t)));
    }
    Ok(v)
}

fn read_counted_bootstraps(r: &mut BlockReader) -> (res: Result<Vec<BootstrapMethod>, DecodeError>)
    requires
        old(r).wf(),
    ensures
        final(r).wf(),
        progress(*old(r), *final(r)),
        res matches Ok(v) ==> consumed(*old(r), *final(r), count16(v@.len()) + concat_map(v@, |b: BootstrapMethod| enc_bootstrap(b))),
{
    let ghost t0 = *r;
    let n = match r.read_u16() {
        Ok(x) => x,
        Err(e) => return Err(e),
    };
    let ghost t1 = *r;
    let v = match read_bootstraps(r, n as usize) {
        Ok(x) => x,
        Err(e) => return Err(e),
    };
    proof {
        lemma_consumed_chain(t0, t1, *r, be16(n), concat_map(v@, |b: BootstrapMethod| enc_bootstrap(b)));
    }
    Ok(v)
}

fn read_u8_counted_parameter_annotations(r: &mut BlockReader) -> (res: Result<Vec<Vec<Annotation>>, DecodeError>)
    requires
        old(r).wf(),
    ensures
        final(r).wf(),
        progress(*old(r), *final(r)),
        res matches Ok(v) ==> consumed(*old(r), *final(r), seq![v@.len() as u8] + enc_parameter_annotations(v@)),
{
    let ghost t0 = *r;
    let n = match r.read_u8() {
        Ok(x) => x,
        Err(e) => return Err(e),
    };
    let ghost t1 = *r;
    let v = match read_parameter_annotations(r, n as usize) {
        Ok(x) => x,
        Err(e) => return Err(e),
    };
    proof {
        lemma_consumed_chain(t0, t1, *r, seq![n], enc_parameter_annotations(v@));
    }
    Ok(v)
}

fn read_u8_counted_method_parameters(r: &mut BlockReader) -> (res: Result<Vec<MethodParameter>, DecodeError>)
    requires
        old(r).wf(),
    ensures
        final(r).wf(),
        progress(*old(r), *final(r)),
        res matches Ok(v) ==> consumed(*old(r), *final(r), seq![v@.len() as u8] + concat_map(v@, |p: MethodParameter| enc_method_parameter(p))),
{
    let ghost t0 = *r;
    let n = match r.read_u8() {
        Ok(x) => x,
        Err(e) => return Err(e),
    };
    let ghost t1 = *r;
    let v = match read_method_parameters(r, n as usize) {
        Ok(x) => x,
        Err(e) => return Err(e),
    };
    proof {
        lemma_consumed_chain(t0, t1, *r, seq![n], concat_map(v@, |p: MethodParameter| enc_method_parameter(p)));
    }
    Ok(v)
}

/// Reads the body of a code attribute: limits, code array, exception table, attributes.
#[verifier::spinoff_prover]
fn read_code_body(r: &mut BlockReader, cp: &ConstantPool) -> (res: Result<Attribute, DecodeError>)
    requires
        old(r).wf(),
    ensures
        final(r).wf(),
        progress(*old(r), *final(r)),
        res matches Ok(a) ==> attribute_kind(a) == Some(AttributeKind::Code) && consumed(*old(r), *final(r), attribute_body(a, cp.constants@)),
    decreases old(r).remaining(), 0int,
{
    let ghost t0 = *r;
    let max_stack = match r.read_u16() {
        Ok(x) => x,
        Err(e) => return Err(e),
    };
    let ghost t1 = *r;
    let max_locals = match r.read_u16() {
        Ok(x) => x,
        Err(e) => return Err(e),
    };
    let ghost t2 = *r;
    let len = match r.read_u32() {
        Ok(x) => x,
        Err(e) => return Err(e),
    };
    let ghost t3 = *r;
    let bytes = match r.read_n(len as usize) {
        Ok(x) => x,
        Err(e) => return Err(e),
    };
    let ghost t4 = *r;
    let ghost code_bytes = bytes@;
    let code = match parse_code(bytes) {
        Ok(x) => x,
        Err(e) => return Err(e),
    };
    let handlers = match read_counted_handlers(r) {
        Ok(x) => x,
        Err(e) => return Err(e),
    };
    let ghost t5 = *r;
    proof {
        assert(be16(max_stack).len() == 2);
        assert(r.remaining() < old(r).remaining());
    }
    let attributes = match read_attributes(r, cp) {
        Ok(x) => x,
        Err(e) => return Err(e),
    };
    let ghost hs = count16(handlers@.len()) + concat_map(handlers@, |h: ExceptionHandler| enc_handler(h));
    proof {
        lemma_consumed_chain(t0, t1, t2, be16(max_stack), be16(max_locals));
        lemma_consumed_chain(t0, t2, t3, be16(max_stack) + be16(max_locals), be32(len));
        lemma_consumed_chain(t0, t3, t4, be16(max_stack) + be16(max_locals) + be32(len), code_bytes);
        lemma_consumed_chain(t0, t4, t5, be16(max_stack) + be16(max_locals) + be32(len) + code_bytes, hs);
        lemma_consumed_chain(t0, t5, *r, be16(max_stack) + be16(max_locals) + be32(len) + code_bytes + hs, enc_attribute_list(attributes@, cp.constants@));
    }
    let a = Attribute::Code { max_stack, max_locals, code, exception_table: handlers, attributes };
    proof {
        assert(enc_code(code@) == code_bytes);
        assert(be16(max_stack) + be16(max_locals) + be32(len) + code_bytes + hs + enc_attribute_list(attributes@, cp.constants@) =~= attribute_body(a, cp.constants@));
    }
    Ok(a)
}

/// Reads the body of an attribute with a fixed-size or raw body of kind `kind`.
#[verifier::spinoff_prover]
fn parse_simple_body(r: &mut BlockReader, kind: AttributeKind, cp: &ConstantPool) -> (res: Result<Attribute, DecodeError>)
    requires
        old(r).wf(),
    ensures
        final(r).wf(),
        progress(*old(r), *final(r)),
        res matches Ok(a) ==> attribute_kind(a) == Some(kind) && consumed(*old(r), *final(r), attribute_body(a, cp.constants@)),
{
    let ghost t0 = *r;
    proof {
        lemma_consumed_nothing(t0);
    }
    match kind {
        AttributeKind::ConstantValue => match read_index(r) {
            Ok(i) => Ok(Attribute::ConstantValue(i)),
            Err(e) => Err(e),
        },
        AttributeKind::Signature => match read_index(r) {
            Ok(i) => Ok(Attribute::Signature(i)),
            Err(e) => Err(e),
        },
        AttributeKind::SourceFile => match read_index(r) {
            Ok(i) => Ok(Attribute::SourceFile(i)),
            Err(e) => Err(e),
        },
        AttributeKind::EnclosingMethod => {
            let a = match read_index(r) {
                Ok(x) => x,
                Err(e) => return Err(e),
            };
            let ghost t1 = *r;
            let b = match read_index(r) {
                Ok(x) => x,
                Err(e) => return Err(e),
            };
            proof {
                lemma_consumed_chain(t0, t1, *r, idx16(a), idx16(b));
            }
            Ok(Attribute::EnclosingMethod { class_index: a, method_index: b })
        },
        AttributeKind::Synthetic => Ok(Attribute::Synthetic),
        AttributeKind::Deprecated => Ok(Attribute::Deprecated),
        AttributeKind::SourceDebugExtension => match r.read_bytes() {
            Ok(b) => Ok(Attribute::SourceDebugExtension(b)),
            Err(e) => Err(e),
        },
        _ => Err(DecodeError::Malformed),
    }
}

/// Reads the body of a table attribute of kind `kind`.
#[verifier::spinoff_prover]
fn parse_table_body(r: &mut BlockReader, kind: AttributeKind, cp: &ConstantPool) -> (res: Result<Attribute, DecodeError>)
    requires
        old(r).wf(),
    ensures
        final(r).wf(),
        progress(*old(r), *final(r)),
        res matches Ok(a) ==> attribute_kind(a) == Some(kind) && consumed(*old(r), *final(r), attribute_body(a, cp.constants@)),
{
    let ghost t0 = *r;
    proof {
        lemma_consumed_nothing(t0);
    }
    match kind {
        AttributeKind::StackMapTable => match read_counted_frames(r) {
            Ok(v) => Ok(Attribute::StackMapTable(v)),
            Err(e) => Err(e),
        },
        AttributeKind::Exceptions => match read_counted_indices(r) {
            Ok(v) => Ok(Attribute::Exceptions(v)),
            Err(e) => Err(e),
        },
        AttributeKind::InnerClasses => match read_counted_inner_classes(r) {
            Ok(v) => Ok(Attribute::InnerClasses(v)),
            Err(e) => Err(e),
        },
        AttributeKind::LineNumberTable => match read_counted_lines(r) {
            Ok(v) => Ok(Attribute::LineNumberTable(v)),
            Err(e) => Err(e),
        },
        AttributeKind::LocalVariableTable => match read_counted_locals(r) {
            Ok(v) => Ok(Attribute::LocalVariableTable(v)),
            Err(e) => Err(e),
        },
        AttributeKind::LocalVariableTypeTable => match read_counted_local_types(r) {
            Ok(v) => Ok(Attribute::LocalVariableTypeTable(v)),
            Err(e) => Err(e),
        },
        AttributeKind::BootstrapMethods => match read_counted_bootstraps(r) {
            Ok(v) => Ok(Attribute::BootstrapMethods(v)),
            Err(e) => Err(e),
        },
        AttributeKind::MethodParameters => match read_u8_counted_method_parameters(r) {
            Ok(v) => Ok(Attribute::MethodParameters(v)),
            Err(e) => Err(e),
        },

        _ => Err(DecodeError::Malformed),
    }
}

/// Reads the body of an annotation attribute of kind `kind`.
#[verifier::spinoff_prover]
fn parse_annotation_body(r: &mut BlockReader, kind: AttributeKind, cp: &ConstantPool) -> (res: Result<Attribute, DecodeError>)
    requires
        old(r).wf(),
    ensures
        final(r).wf(),
        progress(*old(r), *final(r)),
        res matches Ok(a) ==> attribute_kind(a) == Some(kind) && consumed(*old(r), *final(r), attribute_body(a, cp.constants@)),
{
    let ghost t0 = *r;
    proof {
        lemma_consumed_nothing(t0);
    }
    match kind {
        AttributeKind::RuntimeVisibleAnnotations => match read_counted_annotations(r) {
            Ok(v) => Ok(Attribute::RuntimeVisibleAnnotations(v)),
            Err(e) => Err(e),
        },
        AttributeKind::RuntimeInvisibleAnnotations => match read_counted_annotations(r) {
            Ok(v) => Ok(Attribute::RuntimeInvisibleAnnotations(v)),
            Err(e) => Err(e),
        },
        AttributeKind::RuntimeVisibleParameterAnnotations => match read_u8_counted_parameter_annotations(r) {
            Ok(v) => Ok(Attribute::RuntimeVisibleParameterAnnotations(v)),
            Err(e) => Err(e),
        },
        AttributeKind::RuntimeInvisibleParameterAnnotations => match read_u8_counted_parameter_annotations(r) {
            Ok(v) => Ok(Attribute::RuntimeInvisibleParameterAnnotations(v)),
            Err(e) => Err(e),
        },
        AttributeKind::RuntimeVisibleTypeAnnotations => match read_counted_type_annotations(r) {
            Ok(v) => Ok(Attribute::RuntimeVisibleTypeAnnotations(v)),
            Err(e) => Err(e),
        },
        AttributeKind::RuntimeInvisibleTypeAnnotations => match read_counted_type_annotations(r) {
            Ok(v) => Ok(Attribute::RuntimeInvisibleTypeAnnotations(v)),
            Err(e) => Err(e),
        },
        AttributeKind::AnnotationDefault => match read_element_value(r) {
            Ok(e) => Ok(Attribute::AnnotationDefault(e)),
            Err(e) => Err(e),
        },
        _ => Err(DecodeError::Malformed),
    }
}

/// Reads the body of an attribute of kind `kind` from the bytes that hold exactly that body.
fn parse_attribute_body(r: &mut BlockReader, kind: AttributeKind, cp: &ConstantPool) -> (res: Result<Attribute, DecodeError>)
    requires
        old(r).wf(),
    ensures
        final(r).wf(),
        progress(*old(r), *final(r)),
        res matches Ok(a) ==> attribute_kind(a) == Some(kind) && consumed(*old(r), *final(r), attribute_body(a, cp.constants@)),
    decreases old(r).remaining(), 1int,
{
    match kind {
        AttributeKind::Code => read_code_body(r, cp),
        AttributeKind::ConstantValue | AttributeKind::Signature | AttributeKind::SourceFile | AttributeKind::EnclosingMethod
        | AttributeKind::Synthetic | AttributeKind::Deprecated | AttributeKind::SourceDebugExtension => parse_simple_body(r, kind, cp),
        AttributeKind::StackMapTable | AttributeKind::Exceptions | AttributeKind::InnerClasses | AttributeKind::LineNumberTable
        | AttributeKind::LocalVariableTable | AttributeKind::LocalVariableTypeTable | AttributeKind::BootstrapMethods
        | AttributeKind::MethodParameters => parse_table_body(r, kind, cp),
        _ => parse_annotation_body(r, kind, cp),
    }
}

/// Pool entry `idx` names an attribute kind with a structural form, and is the first
/// entry holding that name.
pub open spec fn recognized_name(cs: Seq<Constant>, idx: u16) -> bool {
    exists|k: AttributeKind| (idx as int) < cs.len() && is_utf8_of(#[trigger] cs[idx as int], kind_name(k))
        && utf8_index(cs, kind_name(k)) == idx as nat
}

/// The body length stated in the header of an attribute starting at `p`.
pub open spec fn attribute_length_at(s: Seq<u8>, p: int) -> int {
    be32_value(s[p + 2], s[p + 3], s[p + 4], s[p + 5]) as int
}

/// The kind under which an attribute named by pool entry `name_index` is decoded: its
/// name must be a known kind's, and `name_index` the first pool entry holding that name.
fn structural_kind(name_index: u16, cp: &ConstantPool) -> (r: Option<AttributeKind>)
    ensures
        r matches Some(k) ==> utf8_index(cp.constants@, kind_name(k)) == name_index as nat
            && (name_index as int) < cp.constants@.len() && is_utf8_of(cp.constants@[name_index as int], kind_name(k)),
        r is None ==> !recognized_name(cp.constants@, name_index),
{
    match cp.get_utf8(name_index) {
        Some(name) => match kind_of_name(name) {
            Some(k) => match cp.find_ut8_index(name) {
                Some(first) => {
                    if first == name_index as usize {
                        proof {
                            assert(recognized_name(cp.constants@, name_index));
                        }
                        Some(k)
                    } else {
                        proof {
                            assert forall|j: AttributeKind| !((name_index as int) < cp.constants@.len()
                                && is_utf8_of(#[trigger] cp.constants@[name_index as int], kind_name(j))
                                && utf8_index(cp.constants@, kind_name(j)) == name_index as nat) by {
                                if is_utf8_of(cp.constants@[name_index as int], kind_name(j)) {
                                    assert(kind_name(j) == name@);
                                }
                            }
                        }
                        None
                    }
                },
                None => None,
            },
            None => None,
        },
        None => None,
    }
}

/// Reads one attribute. Its body is decoded structurally where its name is a known kind's,
/// the decode succeeds and consumes the whole body; otherwise it is kept as a raw attribute
/// with the same bytes.
#[verifier::spinoff_prover]
pub fn read_attribute(r: &mut BlockReader, cp: &ConstantPool) -> (res: Result<Attribute, DecodeError>)
    requires
        old(r).wf(),
    ensures
        final(r).wf(),
        progress(*old(r), *final(r)),
        res matches Ok(a) ==> consumed(*old(r), *final(r), enc_attribute(a, cp.constants@))
            && final(r).position == old(r).position + 6 + attribute_length_at(old(r).data@, old(r).position as int),
        res is Ok <==> old(r).remaining() >= 6 && old(r).remaining() - 6 >= attribute_length_at(old(r).data@, old(r).position as int),
        res is Ok && !recognized_name(cp.constants@, be16_value(old(r).data@[old(r).position as int], old(r).data@[old(r).position + 1]))
            ==> (res matches Ok(a) && (a matches Attribute::RawAttribute { name_index, info }
                && name_index.idx == be16_value(old(r).data@[old(r).position as int], old(r).data@[old(r).position + 1])
                && info@ == old(r).data@.subrange(old(r).position + 6, final(r).position as int))),
    decreases old(r).remaining(), 2int,
{
    let ghost t0 = *r;
    let name_index = match r.read_u16() {
        Ok(x) => x,
        Err(e) => return Err(e),
    };
    let ghost t1 = *r;
    let len = match r.read_u32() {
        Ok(x) => x,
        Err(e) => return Err(e),
    };
    let ghost t2 = *r;
    let body = match r.read_n(len as usize) {
        Ok(x) => x,
        Err(e) => return Err(e),
    };
    proof {
        lemma_consumed_chain(t0, t1, t2, be16(name_index), be32(len));
        lemma_consumed_chain(t0, t2, *r, be16(name_index) + be32(len), body@);
        assert(be16(name_index).len() == 2);
    }
    let ghost body_bytes = body@;
    let info = match structural_kind(name_index, cp) {
        Some(kind) => {
            let mut sub = BlockReader::new(body);
            let ghost s0 = sub;
            proof {
                assert(sub.remaining() < old(r).remaining());
            }
            match parse_attribute_body(&mut sub, kind, cp) {
                Ok(a) => {
                    if sub.at_end() {
                        proof {
                            assert(sub.data@.subrange(0, sub.data@.len() as int) =~= body_bytes);
                            assert(attribute_name_index(a, cp.constants@) == name_index as nat);
                            assert(attribute_body(a, cp.constants@) == body_bytes);
                            assert(be16(name_index) + be32(len) + body_bytes =~= enc_attribute(a, cp.constants@));
                        }
                        return Ok(a);
                    }
                },
                Err(_) => {},
            }
            sub.data
        },
        None => body,
    };
    let a = Attribute::RawAttribute { name_index: ConstantPoolIndex::new(name_index as usize), info };
    proof {
        assert(info@ == body_bytes);
        assert(be16(name_index) + be32(len) + body_bytes =~= enc_attribute(a, cp.constants@));
    }
    Ok(a)
}

/// Reads a count of attributes, then the attributes.
pub fn read_attributes(r: &mut BlockReader, cp: &ConstantPool) -> (res: Result<Vec<Attribute>, DecodeError>)
    requires
        old(r).wf(),
    ensures
        final(r).wf(),
        progress(*old(r), *final(r)),
        res matches Ok(v) ==> consumed(*old(r), *final(r), enc_attribute_list(v@, cp.constants@)),
    decreases old(r).remaining(), 3int,
{
    let ghost t0 = *r;
    let n = match r.read_u16() {
        Ok(x) => x,
        Err(e) => return Err(e),
    };
    let ghost r0 = *r;
    let mut v: Vec<Attribute> = Vec::new();
    proof {
        lemma_consumed_nothing(r0);
        assert(be16(n).len() == 2);
    }
    let mut k: u16 = 0;
    while k < n
        invariant
            r.wf(),
            t0 == *old(r),
            progress(t0, r0),
            consumed(t0, r0, be16(n)),
            progress(r0, *r),
            consumed(r0, *r, enc_attributes(v@, cp.constants@)),
            v@.len() == k,
            k <= n,
        decreases n - k,
    {
        let ghost rb = *r;
        let a = match read_attribute(r, cp) {
            Ok(x) => x,
            Err(e) => return Err(e),
        };
        proof {
            lemma_consumed_chain(r0, rb, *r, enc_attributes(v@, cp.constants@), enc_attribute(a, cp.constants@));
            let s = v@.push(a);
            assert(s.subrange(0, s.len() - 1) =~= v@);
        }
        v.push(a);
        k = k + 1;
    }
    proof {
        lemma_consumed_chain(t0, r0, *r, be16(n), enc_attributes(v@, cp.constants@));
    }
    Ok(v)
}

fn read_field(r: &mut BlockReader, cp: &ConstantPool) -> (res: Result<Field, DecodeError>)
    requires
        old(r).wf(),
    ensures
        final(r).wf(),
        progress(*old(r), *final(r)),
        res matches Ok(f) ==> consumed(*old(r), *final(r), enc_field(f, cp.constants@)),
{
    let ghost t0 = *r;
    let flags = match r.read_u16() {
        Ok(x) => x,
        Err(e) => return Err(e),
    };
    let ghost t1 = *r;
    let name = match read_index(r) {
        Ok(x) => x,
        Err(e) => return Err(e),
    };
    let ghost t2 = *r;
    let desc = match read_index(r) {
        Ok(x) => x,
        Err(e) => return Err(e),
    };
    let ghost t3 = *r;
    let attributes = match read_attributes(r, cp) {
        Ok(x) => x,
        Err(e) => return Err(e),
    };
    proof {
        lemma_consumed_chain(t0, t1, t2, be16(flags), idx16(name));
        lemma_consumed_chain(t0, t2, t3, be16(flags) + idx16(name), idx16(desc));
        lemma_consumed_chain(t0, t3, *r, be16(flags) + idx16(name) + idx16(desc), enc_attribute_list(attributes@, cp.constants@));
    }
    Ok(Field { access_flags: AccessFlags::of(flags), name_index: name, descriptor_index: desc, attributes })
}

fn read_method(r: &mut BlockReader, cp: &ConstantPool) -> (res: Result<Method, DecodeError>)
    requires
        old(r).wf(),
    ensures
        final(r).wf(),
        progress(*old(r), *final(r)),
        res matches Ok(m) ==> consumed(*old(r), *final(r), enc_method(m, cp.constants@)),
{
    let ghost t0 = *r;
    let flags = match r.read_u16() {
        Ok(x) => x,
        Err(e) => return Err(e),
    };
    let ghost t1 = *r;
    let name = match read_index(r) {
        Ok(x) => x,
        Err(e) => return Err(e),
    };
    let ghost t2 = *r;
    let desc = match read_index(r) {
        Ok(x) => x,
        Err(e) => return Err(e),
    };
    let ghost t3 = *r;
    let attributes = match read_attributes(r, cp) {
        Ok(x) => x,
        Err(e) => return Err(e),
    };
    proof {
        lemma_consumed_chain(t0, t1, t2, be16(flags), idx16(name));
        lemma_consumed_chain(t0, t2, t3, be16(flags) + idx16(name), idx16(desc));
        lemma_consumed_chain(t0, t3, *r, be16(flags) + idx16(name) + idx16(desc), enc_attribute_list(attributes@, cp.constants@));
    }
    Ok(Method { access_flags: AccessFlags::of(flags), name_index: name, descriptor_index: desc, attributes })
}

fn read_fields(r: &mut BlockReader, n: usize, cp: &ConstantPool) -> (res: Result<Vec<Field>, DecodeError>)
    requires
        old(r).wf(),
    ensures
        final(r).wf(),
        progress(*old(r), *final(r)),
        res matches Ok(v) ==> v@.len() == n && consumed(*old(r), *final(r), concat_map(v@, |f: Field| enc_field(f, cp.constants@))),
{
    let ghost r0 = *r;
    let mut v: Vec<Field> = Vec::new();
    proof {
        lemma_consumed_nothing(r0);
        assert(concat_map(v@, |f: Field| enc_field(f, cp.constants@)) =~= Seq::<u8>::empty());
    }
    let mut k: usize = 0;
    while k < n
        invariant
            r.wf(),
            r0 == *old(r),
            progress(r0, *r),
            consumed(r0, *r, concat_map(v@, |f: Field| enc_field(f, cp.constants@))),
            v@.len() == k,
            k <= n,
        decreases n - k,
    {
        let ghost rb = *r;
        let x = match read_field(r, cp) {
            Ok(x) => x,
            Err(e) => return Err(e),
        };
        proof {
            lemma_consumed_chain(r0, rb, *r, concat_map(v@, |f: Field| enc_field(f, cp.constants@)), enc_field(x, cp.constants@));
            lemma_concat_map_push(v@, x, |f: Field| enc_field(f, cp.constants@));
        }
        v.push(x);
        k = k + 1;
    }
    Ok(v)
}

fn read_methods(r: &mut BlockReader, n: usize, cp: &ConstantPool) -> (res: Result<Vec<Method>, DecodeError>)
    requires
        old(r).wf(),
    ensures
        final(r).wf(),
        progress(*old(r), *final(r)),
        res matches Ok(v) ==> v@.len() == n && consumed(*old(r), *final(r), concat_map(v@, |m: Method| enc_method(m, cp.constants@))),
{
    let ghost r0 = *r;
    let mut v: Vec<Method> = Vec::new();
    proof {
        lemma_consumed_nothing(r0);
        assert(concat_map(v@, |m: Method| enc_method(m, cp.constants@)) =~= Seq::<u8>::empty());
    }
    let mut k: usize = 0;
    while k < n
        invariant
            r.wf(),
            r0 == *old(r),
            progress(r0, *r),
            consumed(r0, *r, concat_map(v@, |m: Method| enc_method(m, cp.constants@))),
            v@.len() == k,
            k <= n,
        decreases n - k,
    {
        let ghost rb = *r;
        let x = match read_method(r, cp) {
            Ok(x) => x,
            Err(e) => return Err(e),
        };
        proof {
            lemma_consumed_chain(r0, rb, *r, concat_map(v@, |m: Method| enc_method(m, cp.constants@)), enc_method(x, cp.constants@));
            lemma_concat_map_push(v@, x, |m: Method| enc_method(m, cp.constants@));
        }
        v.push(x);
        k = k + 1;
    }
    Ok(v)
}

/// Decodes class files.
pub struct ClassReader {}

impl ClassReader {
    /// Decodes a whole class file. What it returns encodes back to exactly `bytes`; its pool
    /// holds a placeholder after each Long and Double. Input that does not open with the
    /// magic number, short input included, is refused as having an invalid magic number.
    #[verifier::rlimit(100)]
    #[verifier::spinoff_prover]
    pub fn read_class(bytes: Vec<u8>) -> (res: Result<Classfile, DecodeError>)
        ensures
            res matches Ok(c) ==> enc_class(c) == bytes@ && pool_wf(c.constant_pool.constants@),
            bytes@.len() < 4 || bytes@.subrange(0, 4) != be32(0xCAFEBABEu32) ==> res == Err::<Classfile, DecodeError>(DecodeError::InvalidMagic),
    {
        let mut reader = BlockReader::new(bytes);
        let r = &mut reader;
        let ghost t0 = *r;
        let magic = match r.read_u32() {
            Ok(x) => x,
            Err(_) => return Err(DecodeError::InvalidMagic),
        };
        if magic != 0xCAFEBABE {
            return Err(DecodeError::InvalidMagic);
        }
        let ghost t1 = *r;
        proof {
            assert(be32(magic).len() == 4);
            assert(bytes@.len() >= 4);
            assert(bytes@.subrange(0, 4) == be32(0xCAFEBABEu32));
        }
        let minor = match r.read_u16() {
            Ok(x) => x,
            Err(e) => return Err(e),
        };
        let ghost t2 = *r;
        let major = match r.read_u16() {
            Ok(x) => x,
            Err(e) => return Err(e),
        };
        let ghost t3 = *r;
        let cp = match read_constant_pool(r) {
            Ok(x) => x,
            Err(e) => return Err(e),
        };
        let ghost t4 = *r;
        let flags = match r.read_u16() {
            Ok(x) => x,
            Err(e) => return Err(e),
        };
        let ghost t5 = *r;
        let this_class = match read_index(r) {
            Ok(x) => x,
            Err(e) => return Err(e),
        };
        let ghost t6 = *r;
        let super_class = match read_index(r) {
            Ok(x) => x,
            Err(e) => return Err(e),
        };
        let ghost t7 = *r;
        let interfaces = match read_counted_indices(r) {
            Ok(x) => x,
            Err(e) => return Err(e),
        };
        let ghost t8 = *r;
        let nf = match r.read_u16() {
            Ok(x) => x,
            Err(e) => return Err(e),
        };
        let ghost t9 = *r;
        let fields = match read_fields(r, nf as usize, &cp) {
            Ok(x) => x,
            Err(e) => return Err(e),
        };
        let ghost t10 = *r;
        let nm = match r.read_u16() {
            Ok(x) => x,
            Err(e) => return Err(e),
        };
        let ghost t11 = *r;
        let methods = match read_methods(r, nm as usize, &cp) {
            Ok(x) => x,
            Err(e) => return Err(e),
        };
        let ghost t12 = *r;
        let attributes = match read_attributes(r, &cp) {
            Ok(x) => x,
            Err(e) => return Err(e),
        };
        if !r.at_end() {
            return Err(DecodeError::Malformed);
        }
        let c = Classfile {
            version: ClassfileVersion::new(major, minor),
            constant_pool: cp,
            access_flags: AccessFlags::of(flags),
            this_class,
            super_class,
            interfaces,
            fields,
            methods,
            attributes,
        };
        proof {
            let cs = c.constant_pool.constants@;
            let p1 = be32(magic);
            let p2 = p1 + be16(minor);
            let p3 = p2 + be16(major);
            let p4 = p3 + enc_pool(cs);
            let p5 = p4 + be16(flags);
            let p6 = p5 + idx16(this_class);
            let p7 = p6 + idx16(super_class);
            let p8 = p7 + count16(c.interfaces@.len()) + concat_map(c.interfaces@, |i: ConstantPoolIndex| idx16(i));
            let p9 = p8 + be16(nf);
            let p10 = p9 + concat_map(c.fields@, |f: Field| enc_field(f, cs));
            let p11 = p10 + be16(nm);
            let p12 = p11 + concat_map(c.methods@, |m: Method| enc_method(m, cs));
            lemma_consumed_chain(t0, t1, t2, p1, be16(minor));
            lemma_consumed_chain(t0, t2, t3, p2, be16(major));
            lemma_consumed_chain(t0, t3, t4, p3, enc_pool(cs));
            lemma_consumed_chain(t0, t4, t5, p4, be16(flags));
            lemma_consumed_chain(t0, t5, t6, p5, idx16(this_class));
            lemma_consumed_chain(t0, t6, t7, p6, idx16(super_class));
            lemma_consumed_chain(t0, t7, t8, p7, count16(c.interfaces@.len()) + concat_map(c.interfaces@, |i: ConstantPoolIndex| idx16(i)));
            assert(p7 + (count16(c.interfaces@.len()) + concat_map(c.interfaces@, |i: ConstantPoolIndex| idx16(i))) =~= p8);
            lemma_consumed_chain(t0, t8, t9, p8, be16(nf));
            lemma_consumed_chain(t0, t9, t10, p9, concat_map(c.fields@, |f: Field| enc_field(f, cs)));
            lemma_consumed_chain(t0, t10, t11, p10, be16(nm));
            lemma_consumed_chain(t0, t11, t12, p11, concat_map(c.methods@, |m: Method| enc_method(m, cs)));
            lemma_consumed_chain(t0, t12, *r, p12, enc_attribute_list(c.attributes@, cs));
            assert(r.data@.subrange(0, r.data@.len() as int) =~= bytes@);
            assert(p12 + enc_attribute_list(c.attributes@, cs) =~= enc_class(c));
        }
        Ok(c)
    }
}

} // verus!
