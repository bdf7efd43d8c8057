use stackparam::blockreader::DecodeError;
use stackparam::classfile::{
    AccessFlags, Annotation, Attribute, Classfile, ClassfileVersion, Constant, ConstantPool, ConstantPoolIndex,
    ElementValue, ElementValuePair, Method, MethodParameter, ReferenceKind, StackMapFrame, TargetInfo,
    TypeAnnotation, TypePath, TypePathKind, VerificationType,
};
use stackparam::instruction::Instruction;
use stackparam::reader::ClassReader;
use stackparam::writer::ClassWriter;

fn utf8(s: &str) -> Constant {
    Constant::Utf8(s.as_bytes().to_vec())
}

fn idx(i: usize) -> ConstantPoolIndex {
    ConstantPoolIndex::new(i)
}

/// A class `T` with `public static int f(int a, long b, int c) { return a + (int)b + c; }`.
fn sample_class() -> Classfile {
    let constants = vec![
        Constant::Placeholder,
        utf8("Code"),
        utf8("T"),
        Constant::Class(idx(2)),
        utf8("java/lang/Object"),
        Constant::Class(idx(4)),
        utf8("f"),
        utf8("(IJI)I"),
        Constant::Long(5),
        Constant::Placeholder,
    ];
    let code = vec![
        Instruction::ILOAD_0,
        Instruction::LLOAD_1,
        Instruction::L2I,
        Instruction::IADD,
        Instruction::ILOAD_3,
        Instruction::IADD,
        Instruction::IRETURN,
    ];
    let method = Method {
        access_flags: AccessFlags::of(0x0009),
        name_index: idx(6),
        descriptor_index: idx(7),
        attributes: vec![Attribute::Code {
            max_stack: 4,
            max_locals: 4,
            code,
            exception_table: vec![],
            attributes: vec![],
        }],
    };
    Classfile {
        version: ClassfileVersion::new(52, 0),
        constant_pool: ConstantPool::new(constants),
        access_flags: AccessFlags::of(0x0021),
        this_class: idx(3),
        super_class: idx(5),
        interfaces: vec![],
        fields: vec![],
        methods: vec![method],
        attributes: vec![],
    }
}

fn encode(c: &Classfile) -> Vec<u8> {
    let mut w = ClassWriter::new();
    let n = w.write_class(c);
    let out = w.into_bytes();
    assert_eq!(n, out.len());
    out
}

fn code_of(c: &Classfile) -> String {
    match &c.methods[0].attributes[0] {
        Attribute::Code { code, .. } => format!("{:?}", code),
        other => panic!("no code: {:?}", other),
    }
}

#[test]
fn round_trip_of_written_class() {
    let bytes = encode(&sample_class());
    assert_eq!(&bytes[0..4], &[0xCA, 0xFE, 0xBA, 0xBE]);
    let decoded = ClassReader::read_class(bytes.clone()).expect("decodes");
    assert_eq!(encode(&decoded), bytes);
    assert_eq!(decoded.constant_pool.cp_len(), 10);
    assert!(matches!(decoded.methods[0].attributes[0], Attribute::Code { .. }));
}

#[test]
fn pool_count_and_placeholder_after_long() {
    let bytes = encode(&sample_class());
    // the count covers the reserved entry and the long's second slot
    assert_eq!(&bytes[8..10], &[0, 10]);
    let decoded = ClassReader::read_class(bytes).unwrap();
    assert!(matches!(decoded.constant_pool.constants[8], Constant::Long(5)));
    assert!(matches!(decoded.constant_pool.constants[9], Constant::Placeholder));
    assert!(matches!(decoded.constant_pool.constants[0], Constant::Placeholder));
}

#[test]
fn interning_one_utf8_keeps_code_bytes() {
    let source = sample_class();
    let bytes = encode(&source);
    let mut decoded = ClassReader::read_class(bytes).unwrap();
    let before = decoded.constant_pool.cp_len();
    let x = decoded.constant_pool.intern_utf8(&b"X".to_vec());
    assert_eq!(x, before);
    let again = encode(&decoded);
    let redecoded = ClassReader::read_class(again).unwrap();
    assert_eq!(redecoded.constant_pool.cp_len(), before + 1);
    assert_eq!(code_of(&redecoded), code_of(&source));
    let mut w1 = ClassWriter::new();
    let mut w2 = ClassWriter::new();
    match (&source.methods[0].attributes[0], &redecoded.methods[0].attributes[0]) {
        (Attribute::Code { code: a, .. }, Attribute::Code { code: b, .. }) => {
            w1.write_instructions(a);
            w2.write_instructions(b);
        }
        _ => panic!("no code"),
    }
    assert_eq!(w1.into_bytes(), w2.into_bytes());
}

#[test]
fn unknown_attribute_is_kept_raw() {
    let mut c = sample_class();
    c.constant_pool.constants.push(utf8("Foo"));
    let name = c.constant_pool.cp_len() - 1;
    c.attributes.push(Attribute::RawAttribute { name_index: idx(name), info: vec![1, 2, 3] });
    let bytes = encode(&c);
    let decoded = ClassReader::read_class(bytes.clone()).unwrap();
    match &decoded.attributes[0] {
        Attribute::RawAttribute { name_index, info } => {
            assert_eq!(name_index.idx, name);
            assert_eq!(info, &vec![1, 2, 3]);
        }
        other => panic!("not raw: {:?}", other),
    }
    assert_eq!(encode(&decoded), bytes);
}

#[test]
fn structural_attribute_that_underreads_stays_raw() {
    let mut c = sample_class();
    c.constant_pool.constants.push(utf8("SourceFile"));
    let name = c.constant_pool.cp_len() - 1;
    // a source-file attribute is two bytes; three make it fail the strict decode
    c.attributes.push(Attribute::RawAttribute { name_index: idx(name), info: vec![0, 2, 9] });
    let bytes = encode(&c);
    let decoded = ClassReader::read_class(bytes.clone()).unwrap();
    assert!(matches!(decoded.attributes[0], Attribute::RawAttribute { .. }));
    assert_eq!(encode(&decoded), bytes);
}

#[test]
fn source_file_attribute_is_structural() {
    let mut c = sample_class();
    c.constant_pool.constants.push(utf8("SourceFile"));
    c.attributes.push(Attribute::SourceFile(idx(2)));
    let bytes = encode(&c);
    let decoded = ClassReader::read_class(bytes.clone()).unwrap();
    assert!(matches!(decoded.attributes[0], Attribute::SourceFile(ConstantPoolIndex { idx: 2 })));
    assert_eq!(encode(&decoded), bytes);
}

#[test]
fn unknown_constant_tag_round_trips() {
    let mut c = sample_class();
    c.constant_pool.constants.push(Constant::Unknown(2));
    let bytes = encode(&c);
    // an unknown tag is kept and consumes itself alone
    let decoded = ClassReader::read_class(bytes.clone()).unwrap();
    assert!(matches!(decoded.constant_pool.constants[10], Constant::Unknown(2)));
    assert_eq!(encode(&decoded), bytes);
}

#[test]
fn bad_magic_is_refused() {
    let mut bytes = encode(&sample_class());
    bytes[0] = 0;
    assert_eq!(ClassReader::read_class(bytes).unwrap_err(), DecodeError::InvalidMagic);
}

#[test]
fn short_input_is_an_unexpected_end() {
    assert_eq!(ClassReader::read_class(vec![0xCA, 0xFE]).unwrap_err(), DecodeError::InvalidMagic);
    let bytes = encode(&sample_class());
    assert_eq!(ClassReader::read_class(bytes[..20].to_vec()).unwrap_err(), DecodeError::UnexpectedEnd);
}

#[test]
fn empty_pool_count_is_malformed() {
    let bytes = vec![0xCA, 0xFE, 0xBA, 0xBE, 0, 0, 0, 52, 0, 0];
    assert_eq!(ClassReader::read_class(bytes).unwrap_err(), DecodeError::Malformed);
}

#[test]
fn trailing_bytes_are_malformed() {
    let mut bytes = encode(&sample_class());
    bytes.push(0);
    assert_eq!(ClassReader::read_class(bytes).unwrap_err(), DecodeError::Malformed);
}

#[test]
fn instruction_length_matches_written_bytes() {
    let samples = vec![
        Instruction::NOP,
        Instruction::ALOAD(7),
        Instruction::SIPUSH(300),
        Instruction::GOTO(-4),
        Instruction::GOTO_W(70000),
        Instruction::IINC(1, -1),
        Instruction::INVOKEINTERFACE(9, 2),
        Instruction::INVOKEDYNAMIC(4),
        Instruction::MULTIANEWARRAY(3, 2),
        Instruction::ILOAD_W(300),
        Instruction::IINC_W(300, -2),
        Instruction::LOOKUPSWITCH(10, vec![(1, 20), (5, 30)]),
        Instruction::TABLESWITCH(8, 0, 2, vec![1, 2, 3]),
        Instruction::PADDED_INSTRUCTION(3),
    ];
    for offset in 0..8usize {
        for i in &samples {
            let mut w = ClassWriter::new();
            w.render_instruction(i, offset);
            assert_eq!(w.into_bytes().len(), i.encoded_length(offset), "{:?} at {}", i, offset);
        }
    }
}

#[test]
fn switch_operands_are_aligned() {
    for offset in 0..8usize {
        let i = Instruction::TABLESWITCH(8, 0, 0, vec![5]);
        let mut w = ClassWriter::new();
        w.render_instruction(&i, offset);
        let bytes = w.into_bytes();
        let pad = (4 - ((offset + 1) % 4)) % 4;
        assert_eq!((offset + 1 + pad) % 4, 0);
        assert_eq!(bytes[0], 0xaa);
        assert!(bytes[1..1 + pad].iter().all(|b| *b == 0));
        assert_eq!(&bytes[1 + pad..5 + pad], &[0, 0, 0, 8]);
        assert_eq!(bytes.len(), 17 + pad);
    }
}

#[test]
fn fixed_lengths_of_instructions() {
    assert_eq!(Instruction::ALOAD_0.len(), 1);
    assert_eq!(Instruction::BIPUSH(3).len(), 2);
    assert_eq!(Instruction::INVOKESTATIC(3).len(), 3);
    assert_eq!(Instruction::INVOKEINTERFACE(3, 1).len(), 5);
    assert_eq!(Instruction::ILOAD_W(3).len(), 4);
    assert_eq!(Instruction::IINC_W(3, 4).len(), 6);
    assert_eq!(Instruction::LOOKUPSWITCH(0, vec![(1, 2)]).len(), 17);
    assert_eq!(Instruction::TABLESWITCH(0, 1, 2, vec![3, 4]).len(), 21);
    assert_eq!(Instruction::AALOAD.opcode(), 0x32);
    assert_eq!(Instruction::IINC_W(3, 4).opcode(), 0xc4);
}

#[test]
fn code_with_switch_round_trips() {
    let mut c = sample_class();
    if let Attribute::Code { code, .. } = &mut c.methods[0].attributes[0] {
        code.insert(0, Instruction::ICONST_0);
        code.insert(1, Instruction::TABLESWITCH(2, 0, 1, vec![3, 4]));
        code.insert(2, Instruction::ILOAD_W(260));
        code.insert(3, Instruction::INVOKEDYNAMIC(7));
    }
    let bytes = encode(&c);
    let decoded = ClassReader::read_class(bytes.clone()).unwrap();
    assert_eq!(code_of(&decoded), code_of(&c));
    assert_eq!(encode(&decoded), bytes);
}

#[test]
fn reference_kind_bytes() {
    assert_eq!(ReferenceKind::from_u8(6), ReferenceKind::InvokeStatic);
    assert_eq!(ReferenceKind::from_u8(6).to_u8(), 6);
    assert_eq!(ReferenceKind::from_u8(0), ReferenceKind::Unknown);
    assert_eq!(ReferenceKind::Unknown.to_u8(), 255);
}

#[test]
fn access_flag_bits() {
    let mut f = AccessFlags::new();
    f.set_flag(0x0008);
    f.set_flag(0x0100);
    assert!(f.has_flag(0x0008));
    f.clear_flag(0x0008);
    assert!(!f.has_flag(0x0008));
    assert_eq!(f.flags, 0x0100);
}

#[test]
fn pool_lookups() {
    let c = sample_class();
    let cp = &c.constant_pool;
    assert_eq!(cp.get_utf8(6), Some(&b"f".to_vec()));
    assert_eq!(cp.get_utf8(3), None);
    assert_eq!(cp.get_utf8_string(2), Some("T".to_string()));
    assert_eq!(cp.get_utf8_string(3), None);
    let bad = ConstantPool::new(vec![Constant::Placeholder, Constant::Utf8(vec![0xff, 0xfe])]);
    assert_eq!(bad.get_utf8_string(1), None);
    assert_eq!(cp.find_ut8_index(&b"(IJI)I".to_vec()), Some(7));
    assert_eq!(cp.get_utf8_index(&b"nope".to_vec()), 0);
    assert!(matches!(cp.resolve_index(&idx(3)), Some(Constant::Class(_))));
    assert!(cp.resolve_index(&idx(99)).is_none());
    assert_eq!(Constant::Long(1).cp_size(), 2);
    assert_eq!(Constant::Placeholder.cp_size(), 0);
    assert_eq!(utf8("a").cp_size(), 1);
}

#[test]
fn encoded_lengths_of_attribute_parts() {
    assert_eq!(VerificationType::Integer.len(), 1);
    assert_eq!(VerificationType::Object { cpool_index: idx(3) }.len(), 3);
    let full = StackMapFrame::FullFrame {
        offset_delta: 4,
        locals: vec![VerificationType::Integer, VerificationType::Object { cpool_index: idx(3) }],
        stack: vec![VerificationType::Long],
    };
    assert_eq!(full.len(), 7 + 1 + 3 + 1);
    assert_eq!(StackMapFrame::FutureUse { tag: 200 }.len(), 1);
    let nested = ElementValue::Array(vec![
        ElementValue::ConstantValue(b'I', idx(2)),
        ElementValue::Enum { type_name_index: idx(2), const_name_index: idx(6) },
    ]);
    assert_eq!(nested.len(), 3 + 3 + 5);
    let pair = ElementValuePair { element_name_index: idx(6), value: nested };
    assert_eq!(pair.len(), 2 + 11);
    let ann = Annotation { type_index: idx(2), element_value_pairs: vec![pair] };
    assert_eq!(ann.len(), 4 + 13);
    let target = TargetInfo::LocalVar { subtype: 0x40, target: vec![(0, 4, 1)] };
    assert_eq!(target.len(), 2 + 6);
    assert_eq!(target.subtype(), 0x40);
    let path = TypePath { path: vec![(TypePathKind::Array, 0), (TypePathKind::TypeArgument, 1)] };
    assert_eq!(path.len(), 5);
    assert_eq!(TypePathKind::Wildcard.value(), 2);
    let t = TypeAnnotation { target_info: target, target_path: path, type_index: idx(2), element_value_pairs: vec![] };
    assert_eq!(t.len(), 1 + 8 + 5 + 2 + 2);
    assert_eq!(MethodParameter { name_index: idx(6), access_flags: AccessFlags::of(0x10) }.len(), 4);
}

#[test]
fn annotations_round_trip() {
    let mut c = sample_class();
    c.constant_pool.constants.push(utf8("RuntimeVisibleAnnotations"));
    c.constant_pool.constants.push(utf8("RuntimeInvisibleTypeAnnotations"));
    let ann = Annotation {
        type_index: idx(2),
        element_value_pairs: vec![ElementValuePair {
            element_name_index: idx(6),
            value: ElementValue::Annotation(Annotation { type_index: idx(2), element_value_pairs: vec![] }),
        }],
    };
    c.attributes.push(Attribute::RuntimeVisibleAnnotations(vec![ann]));
    c.attributes.push(Attribute::RuntimeInvisibleTypeAnnotations(vec![TypeAnnotation {
        target_info: TargetInfo::TypeArgument { subtype: 0x47, offset: 3, type_arg_idx: 0 },
        target_path: TypePath { path: vec![(TypePathKind::Nested, 0)] },
        type_index: idx(2),
        element_value_pairs: vec![],
    }]));
    let bytes = encode(&c);
    let decoded = ClassReader::read_class(bytes.clone()).unwrap();
    assert!(matches!(decoded.attributes[0], Attribute::RuntimeVisibleAnnotations(_)));
    assert!(matches!(decoded.attributes[1], Attribute::RuntimeInvisibleTypeAnnotations(_)));
    assert_eq!(encode(&decoded), bytes);
}
