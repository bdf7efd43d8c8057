use stackparam::classfile::{
    AccessFlags, Attribute, ClassAccessFlags, Classfile, Constant, FieldAccessFlags, InnerClassAccessFlags,
    Method, MethodAccessFlags, ParameterAccessFlags,
};
use stackparam::instruction::Instruction;
use stackparam::manip::{
    manip_element_class, manip_throwable_class, target_for_class_name, transform_class, update_fill_method, TargetClass,
    TransformError,
};
use stackparam::reader::ClassReader;
use stackparam::rewriter::{add_field, add_method, find_method, insert_instruction, rename_method, RewriteError};
use stackparam::writer::ClassWriter;

fn b(s: &str) -> Vec<u8> {
    s.as_bytes().to_vec()
}

fn encode(c: &Classfile) -> Vec<u8> {
    let mut w = ClassWriter::new();
    w.write_class(c);
    w.into_bytes()
}

fn utf8_at(c: &Classfile, i: usize) -> Vec<u8> {
    match &c.constant_pool.constants[i] {
        Constant::Utf8(v) => v.clone(),
        other => panic!("not utf8: {:?}", other),
    }
}

/// A throwable-like class whose `fillInStackTrace()` is
/// `aload_0; iconst_0; invokespecial #k; areturn`, with `getOurStackTrace()` beside it.
fn throwable_class() -> (Classfile, u16) {
    let mut c = Classfile::new();
    let this = c.constant_pool.intern_class(&b("java/lang/Throwable"));
    let sup = c.constant_pool.intern_class(&b("java/lang/Object"));
    c.this_class.idx = this;
    c.super_class.idx = sup;
    c.constant_pool.intern_utf8(&b("Code"));
    let k = c.constant_pool.intern_method_ref(&b("java/lang/Throwable"), &b("fillInStackTrace"), &b("(I)Ljava/lang/Throwable;"));
    let code = vec![
        Instruction::ALOAD_0,
        Instruction::ICONST_0,
        Instruction::INVOKESPECIAL(k as u16),
        Instruction::ARETURN,
    ];
    add_method(&mut c, 0x0021, &b("fillInStackTrace"), &b("()Ljava/lang/Throwable;"), vec![Attribute::Code {
        max_stack: 2,
        max_locals: 1,
        code,
        exception_table: vec![],
        attributes: vec![],
    }]);
    add_method(&mut c, 0x0002, &b("getOurStackTrace"), &b("()[Ljava/lang/StackTraceElement;"), vec![Attribute::Code {
        max_stack: 1,
        max_locals: 1,
        code: vec![Instruction::ACONST_NULL, Instruction::ARETURN],
        exception_table: vec![],
        attributes: vec![],
    }]);
    (c, k as u16)
}

fn code(m: &Method) -> &Vec<Instruction> {
    match &m.attributes[0] {
        Attribute::Code { code, .. } => code,
        other => panic!("no code: {:?}", other),
    }
}

fn offsets(code: &Vec<Instruction>) -> Vec<usize> {
    let mut at = 0;
    let mut out = vec![];
    for i in code {
        out.push(at);
        at += i.encoded_length(at);
    }
    out
}

#[test]
fn interning_utf8_twice_adds_one_entry() {
    let mut c = Classfile::new();
    let a = c.constant_pool.intern_utf8(&b("hello"));
    let len = c.constant_pool.cp_len();
    let again = c.constant_pool.intern_utf8(&b("hello"));
    assert_eq!(a, again);
    assert_eq!(c.constant_pool.cp_len(), len);
    assert_eq!(a, 1);
}

#[test]
fn interning_refs_reuses_entries() {
    let mut c = Classfile::new();
    let m1 = c.constant_pool.intern_method_ref(&b("A"), &b("m"), &b("()V"));
    let len = c.constant_pool.cp_len();
    let m2 = c.constant_pool.intern_method_ref(&b("A"), &b("m"), &b("()V"));
    assert_eq!(m1, m2);
    assert_eq!(c.constant_pool.cp_len(), len);
    // utf8 A, class A, utf8 m, utf8 ()V, name-and-type, method ref
    assert_eq!(len, 7);
    let f = c.constant_pool.intern_field_ref(&b("A"), &b("m"), &b("()V"));
    assert_eq!(f, 7);
    assert!(matches!(c.constant_pool.constants[f], Constant::FieldRef { .. }));
    let s = c.constant_pool.intern_string(&b("m"));
    assert!(matches!(c.constant_pool.constants[s], Constant::String(_)));
}

#[test]
fn fields_and_methods_are_appended() {
    let mut c = Classfile::new();
    add_field(&mut c, 0x0082, &b("stackParams"), &b("[[Ljava/lang/Object;"));
    assert_eq!(c.fields.len(), 1);
    assert_eq!(c.fields[0].access_flags.flags, 0x0082);
    assert_eq!(utf8_at(&c, c.fields[0].name_index.idx), b("stackParams"));
    assert_eq!(utf8_at(&c, c.fields[0].descriptor_index.idx), b("[[Ljava/lang/Object;"));
    assert!(c.fields[0].attributes.is_empty());
    add_method(&mut c, 0x0101, &b("toString"), &b("()Ljava/lang/String;"), vec![]);
    assert_eq!(find_method(&c, c.methods[0].name_index.idx, c.methods[0].descriptor_index.idx), Some(0));
}

#[test]
fn rename_of_missing_method_fails() {
    let mut c = Classfile::new();
    assert_eq!(rename_method(&mut c, &b("a"), &b("()V"), &b("b")), Err(RewriteError::MethodNotFound));
}

#[test]
fn rename_retargets_the_name() {
    let (mut c, _) = throwable_class();
    rename_method(&mut c, &b("getOurStackTrace"), &b("()[Ljava/lang/StackTraceElement;"), &b("$$stack_param$$getOurStackTrace")).unwrap();
    assert_eq!(utf8_at(&c, c.methods[1].name_index.idx), b("$$stack_param$$getOurStackTrace"));
    assert_eq!(utf8_at(&c, c.methods[0].name_index.idx), b("fillInStackTrace"));
}

#[test]
fn insertion_is_plain_list_insertion() {
    let mut code = vec![Instruction::NOP, Instruction::RETURN];
    insert_instruction(&mut code, 1, Instruction::ICONST_1);
    assert_eq!(format!("{:?}", code), "[NOP, ICONST_1, RETURN]");
}

#[test]
fn fill_method_splice() {
    let (mut c, k) = throwable_class();
    let before = offsets(code(&c.methods[0]));
    update_fill_method(&mut c).unwrap();
    let spliced = code(&c.methods[0]);
    assert_eq!(spliced.len(), 6);
    assert!(matches!(spliced[0], Instruction::ALOAD_0));
    assert!(matches!(spliced[1], Instruction::ICONST_0));
    assert!(matches!(spliced[2], Instruction::INVOKESPECIAL(x) if x == k));
    let cur = match spliced[3] {
        Instruction::INVOKESTATIC(x) => x,
        ref other => panic!("{:?}", other),
    };
    let spfill = match spliced[4] {
        Instruction::INVOKESPECIAL(x) => x,
        ref other => panic!("{:?}", other),
    };
    assert!(matches!(spliced[5], Instruction::ARETURN));
    assert!(matches!(c.constant_pool.constants[cur as usize], Constant::MethodRef { .. }));
    assert!(matches!(c.constant_pool.constants[spfill as usize], Constant::MethodRef { .. }));
    let after = offsets(spliced);
    assert_eq!(after[5], before[3] + 6);
    match &c.methods[0].attributes[0] {
        Attribute::Code { max_stack, .. } => assert!(*max_stack >= 2),
        _ => panic!(),
    }
}

#[test]
fn fill_splice_needs_the_method_and_its_call() {
    let mut c = Classfile::new();
    assert_eq!(update_fill_method(&mut c), Err(RewriteError::MethodNotFound));
    let mut c = Classfile::new();
    add_method(&mut c, 0, &b("fillInStackTrace"), &b("()Ljava/lang/Throwable;"), vec![]);
    assert_eq!(update_fill_method(&mut c), Err(RewriteError::NoCodeAttribute));
    let mut c = Classfile::new();
    add_method(&mut c, 0, &b("fillInStackTrace"), &b("()Ljava/lang/Throwable;"), vec![Attribute::Code {
        max_stack: 1,
        max_locals: 1,
        code: vec![Instruction::ALOAD_0, Instruction::ARETURN],
        exception_table: vec![],
        attributes: vec![],
    }]);
    assert_eq!(update_fill_method(&mut c), Err(RewriteError::InstructionNotFound));
}

#[test]
fn throwable_rewrite_adds_members() {
    let (mut c, _) = throwable_class();
    manip_throwable_class(&mut c).unwrap();
    assert_eq!(c.fields.len(), 1);
    assert_eq!(c.methods.len(), 4);
    assert_eq!(utf8_at(&c, c.methods[2].name_index.idx), b("stackParamFillInStackTrace"));
    assert_eq!(c.methods[2].access_flags.flags, 0x0102);
    assert_eq!(utf8_at(&c, c.methods[3].name_index.idx), b("getOurStackTrace"));
    assert_eq!(c.methods[3].access_flags.flags, 0x0122);
    assert_eq!(utf8_at(&c, c.methods[1].name_index.idx), b("$$stack_param$$getOurStackTrace"));
    let bytes = encode(&c);
    let again = ClassReader::read_class(bytes.clone()).unwrap();
    assert_eq!(encode(&again), bytes);
}

#[test]
fn element_rewrite_adds_members() {
    let mut c = Classfile::new();
    c.constant_pool.intern_utf8(&b("Code"));
    add_method(&mut c, 0x0001, &b("toString"), &b("()Ljava/lang/String;"), vec![]);
    manip_element_class(&mut c).unwrap();
    assert_eq!(c.fields.len(), 1);
    assert_eq!(c.fields[0].access_flags.flags, 0x0080);
    assert_eq!(utf8_at(&c, c.fields[0].name_index.idx), b("paramInfo"));
    assert_eq!(utf8_at(&c, c.methods[0].name_index.idx), b("$$stack_param$$toString"));
    assert_eq!(utf8_at(&c, c.methods[1].name_index.idx), b("toString"));
    assert_eq!(c.methods[1].access_flags.flags, 0x0101);
    let mut empty = Classfile::new();
    assert_eq!(manip_element_class(&mut empty), Err(RewriteError::MethodNotFound));
}

#[test]
fn class_names_that_are_rewritten() {
    assert_eq!(target_for_class_name(&b("java/lang/Throwable")), Some(TargetClass::Throwable));
    assert_eq!(target_for_class_name(&b("java/lang/StackTraceElement")), Some(TargetClass::StackTraceElement));
    assert_eq!(target_for_class_name(&b("java/lang/Object")), None);
}

#[test]
fn transform_from_bytes() {
    let (c, _) = throwable_class();
    let out = transform_class(TargetClass::Throwable, encode(&c)).unwrap();
    let back = ClassReader::read_class(out).unwrap();
    assert_eq!(back.methods.len(), 4);
    assert!(matches!(transform_class(TargetClass::Throwable, vec![1, 2, 3, 4]), Err(TransformError::Decode(_))));
    let plain = Classfile::new();
    assert_eq!(transform_class(TargetClass::StackTraceElement, encode(&plain)), Err(TransformError::Rewrite(RewriteError::MethodNotFound)));
}

#[test]
fn flag_bits_of_the_flag_enums() {
    assert_eq!(MethodAccessFlags::Native.bits(), 0x0100);
    assert_eq!(MethodAccessFlags::Static.bits(), 0x0008);
    assert_eq!(FieldAccessFlags::Transient.bits(), 0x0080);
    assert_eq!(ClassAccessFlags::Super.bits(), 0x0020);
    assert_eq!(InnerClassAccessFlags::Interface.bits(), 0x0200);
    assert_eq!(ParameterAccessFlags::Mandated.bits(), 0x8000);
    let f = AccessFlags::of(MethodAccessFlags::Private.bits() | MethodAccessFlags::Native.bits());
    assert!(f.has_flag(0x0100));
}
