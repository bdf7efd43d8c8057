//! The byte form of every part of a class file, as spec functions. The writer produces
//! exactly these bytes, and whatever the reader accepts encodes back to the bytes it read.
use vstd::prelude::*;
use crate::bytes::{be16, be32, be64};
use crate::classfile::{
    Annotation, Attribute, BootstrapMethod, Classfile, Constant, ConstantPoolIndex, ElementValue,
    ElementValuePair, ExceptionHandler, Field, InnerClass, LineNumberTable, LocalVariableTable,
    LocalVariableTypeTable, Method, MethodParameter, StackMapFrame, TargetInfo, TypeAnnotation,
    TypePath, TypePathKind, VerificationType, spec_reference_kind_byte, spec_target_type,
    spec_type_path_kind_value, utf8_index,
};
use crate::instruction::{Instruction, spec_encode_instruction};
use crate::names::{AttributeKind, kind_name};

verus! {

/// The bytes of each element of `s`, one after the other.
pub open spec fn concat_map<T>(s: Seq<T>, f: spec_fn(T) -> Seq<u8>) -> Seq<u8>
    decreases s.len(),
{
    if s.len() == 0 {
        Seq::empty()
    } else {
        concat_map(s.drop_last(), f) + f(s.last())
    }
}

pub proof fn lemma_concat_map_push<T>(s: Seq<T>, x: T, f: spec_fn(T) -> Seq<u8>)
    ensures
        concat_map(s.push(x), f) == concat_map(s, f) + f(x),
{
    assert(s.push(x).drop_last() =~= s);
}

/// Extending a prefix of `s` by one element.
pub proof fn lemma_concat_map_prefix<T>(s: Seq<T>, i: int, f: spec_fn(T) -> Seq<u8>)
    requires
        0 <= i < s.len(),
    ensures
        concat_map(s.subrange(0, i + 1), f) == concat_map(s.subrange(0, i), f) + f(s[i]),
{
    assert(s.subrange(0, i + 1).drop_last() =~= s.subrange(0, i));
}

pub open spec fn idx16(i: ConstantPoolIndex) -> Seq<u8> {
    be16(#[verifier::truncate] (i.idx as u16))
}

pub open spec fn count16(n: nat) -> Seq<u8> {
    be16(#[verifier::truncate] (n as u16))
}

pub open spec fn enc_constant(c: Constant) -> Seq<u8> {
    match c {
        Constant::Utf8(b) => seq![1u8] + count16(b@.len()) + b@,
        Constant::Integer(v) => seq![3u8] + be32(v),
        Constant::Float(v) => seq![4u8] + be32(v),
        Constant::Long(v) => seq![5u8] + be64(v),
        Constant::Double(v) => seq![6u8] + be64(v),
        Constant::Class(i) => seq![7u8] + idx16(i),
        Constant::String(i) => seq![8u8] + idx16(i),
        Constant::FieldRef { class_index, name_and_type_index } => seq![9u8] + idx16(class_index) + idx16(name_and_type_index),
        Constant::MethodRef { class_index, name_and_type_index } => seq![10u8] + idx16(class_index) + idx16(name_and_type_index),
        Constant::InterfaceMethodRef { class_index, name_and_type_index } => seq![11u8] + idx16(class_index) + idx16(name_and_type_index),
        Constant::NameAndType { name_index, descriptor_index } => seq![12u8] + idx16(name_index) + idx16(descriptor_index),
        Constant::MethodHandle { reference_kind, reference_index } => seq![15u8, spec_reference_kind_byte(reference_kind)] + idx16(reference_index),
        Constant::MethodType(i) => seq![16u8] + idx16(i),
        Constant::InvokeDynamic { bootstrap_method_attr_index, name_and_type_index } => seq![18u8] + idx16(bootstrap_method_attr_index) + idx16(name_and_type_index),
        Constant::Unknown(tag) => seq![tag],
        Constant::Placeholder => Seq::empty(),
    }
}

/// The pool: its entry count (the reserved entry and placeholders included), then each constant.
pub open spec fn enc_pool(cs: Seq<Constant>) -> Seq<u8> {
    count16(cs.len()) + concat_map(cs, |c: Constant| enc_constant(c))
}

/// The pool's bytes open with its entry count: every slot, the reserved entry and the
/// placeholders of Long and Double included.
pub proof fn lemma_pool_count(cs: Seq<Constant>)
    ensures
        enc_pool(cs).subrange(0, 2) == count16(cs.len()),
{
    assert(enc_pool(cs).subrange(0, 2) =~= count16(cs.len()));
}

pub open spec fn enc_vtype(v: VerificationType) -> Seq<u8> {
    match v {
        VerificationType::Top => seq![0u8],
        VerificationType::Integer => seq![1u8],
        VerificationType::Float => seq![2u8],
        VerificationType::Double => seq![3u8],
        VerificationType::Long => seq![4u8],
        VerificationType::Null => seq![5u8],
        VerificationType::UninitializedThis => seq![6u8],
        VerificationType::Object { cpool_index } => seq![7u8] + idx16(cpool_index),
        VerificationType::Uninitialized { offset } => seq![8u8] + be16(offset),
    }
}

pub open spec fn enc_vtypes(s: Seq<VerificationType>) -> Seq<u8> {
    concat_map(s, |v: VerificationType| enc_vtype(v))
}

pub open spec fn enc_frame(f: StackMapFrame) -> Seq<u8> {
    match f {
        StackMapFrame::SameFrame { tag } => seq![tag],
        StackMapFrame::SameLocals1StackItemFrame { tag, stack } => seq![tag] + enc_vtype(stack),
        StackMapFrame::SameLocals1StackItemFrameExtended { offset_delta, stack } => seq![247u8] + be16(offset_delta) + enc_vtype(stack),
        StackMapFrame::ChopFrame { tag, offset_delta } => seq![tag] + be16(offset_delta),
        StackMapFrame::SameFrameExtended { offset_delta } => seq![251u8] + be16(offset_delta),
        StackMapFrame::AppendFrame { tag, offset_delta, locals } => seq![tag] + be16(offset_delta) + enc_vtypes(locals@),
        StackMapFrame::FullFrame { offset_delta, locals, stack } => seq![255u8] + be16(offset_delta) + count16(locals@.len()) + enc_vtypes(locals@) + count16(stack@.len()) + enc_vtypes(stack@),
        StackMapFrame::FutureUse { tag } => seq![tag],
    }
}

pub open spec fn enc_handler(h: ExceptionHandler) -> Seq<u8> {
    be16(h.start_pc) + be16(h.end_pc) + be16(h.handler_pc) + idx16(h.catch_type)
}

pub open spec fn enc_inner_class(c: InnerClass) -> Seq<u8> {
    idx16(c.inner_class_info_index) + idx16(c.outer_class_info_index) + idx16(c.inner_name_index) + be16(c.access_flags.flags)
}

pub open spec fn enc_line(l: LineNumberTable) -> Seq<u8> {
    be16(l.start_pc) + be16(l.line_number)
}

pub open spec fn enc_local(l: LocalVariableTable) -> Seq<u8> {
    be16(l.start_pc) + be16(l.length) + idx16(l.name_index) + idx16(l.descriptor_index) + be16(l.index)
}

pub open spec fn enc_local_type(l: LocalVariableTypeTable) -> Seq<u8> {
    be16(l.start_pc) + be16(l.length) + idx16(l.name_index) + idx16(l.signature_index) + be16(l.index)
}

pub open spec fn enc_method_parameter(p: MethodParameter) -> Seq<u8> {
    idx16(p.name_index) + be16(p.access_flags.flags)
}

pub open spec fn enc_bootstrap(b: BootstrapMethod) -> Seq<u8> {
    idx16(b.bootstrap_method_ref) + count16(b.bootstrap_arguments@.len()) + concat_map(b.bootstrap_arguments@, |i: ConstantPoolIndex| idx16(i))
}

pub open spec fn enc_annotation(a: Annotation) -> Seq<u8>
    decreases a,
{
    idx16(a.type_index) + count16(a.element_value_pairs@.len()) + enc_pairs(a.element_value_pairs@)
}

pub open spec fn enc_pairs(s: Seq<ElementValuePair>) -> Seq<u8>
    decreases s,
{
    if s.len() == 0 {
        Seq::empty()
    } else {
        enc_pairs(s.subrange(0, s.len() - 1)) + idx16(s[s.len() - 1].element_name_index) + enc_element_value(s[s.len() - 1].value)
    }
}

pub open spec fn enc_element_value(e: ElementValue) -> Seq<u8>
    decreases e,
{
    match e {
        ElementValue::ConstantValue(tag, i) => seq![tag] + idx16(i),
        ElementValue::Enum { type_name_index, const_name_index } => seq![101u8] + idx16(type_name_index) + idx16(const_name_index),
        ElementValue::ClassInfo(i) => seq![99u8] + idx16(i),
        ElementValue::Annotation(a) => seq![64u8] + enc_annotation(a),
        ElementValue::Array(v) => seq![91u8] + count16(v@.len()) + enc_element_values(v@),
    }
}

pub open spec fn enc_element_values(s: Seq<ElementValue>) -> Seq<u8>
    decreases s,
{
    if s.len() == 0 {
        Seq::empty()
    } else {
        enc_element_values(s.subrange(0, s.len() - 1)) + enc_element_value(s[s.len() - 1])
    }
}

pub open spec fn enc_annotations(s: Seq<Annotation>) -> Seq<u8> {
    concat_map(s, |a: Annotation| enc_annotation(a))
}

pub open spec fn enc_parameter_annotations(s: Seq<Vec<Annotation>>) -> Seq<u8> {
    concat_map(s, |v: Vec<Annotation>| count16(v@.len()) + enc_annotations(v@))
}

pub open spec fn enc_target(t: TargetInfo) -> Seq<u8> {
    match t {
        TargetInfo::TypeParameter { idx, .. } => seq![idx],
        TargetInfo::SuperType { idx } => be16(idx),
        TargetInfo::TypeParameterBound { param_idx, bound_index, .. } => seq![param_idx, bound_index],
        TargetInfo::Empty { .. } => Seq::empty(),
        TargetInfo::MethodFormalParameter { idx } => seq![idx],
        TargetInfo::Throws { idx } => be16(idx),
        TargetInfo::LocalVar { target, .. } => count16(target@.len()) + concat_map(target@, |e: (u16, u16, u16)| be16(e.0) + be16(e.1) + be16(e.2)),
        TargetInfo::Catch { idx } => be16(idx),
        TargetInfo::Offset { idx, .. } => be16(idx),
        TargetInfo::TypeArgument { offset, type_arg_idx, .. } => be16(offset) + seq![type_arg_idx],
    }
}

pub open spec fn enc_path(p: TypePath) -> Seq<u8> {
    seq![p.path@.len() as u8] + concat_map(p.path@, |e: (TypePathKind, u8)| seq![spec_type_path_kind_value(e.0), e.1])
}

pub open spec fn enc_type_annotation(t: TypeAnnotation) -> Seq<u8> {
    seq![spec_target_type(t.target_info)] + enc_target(t.target_info) + enc_path(t.target_path) + idx16(t.type_index) + count16(t.element_value_pairs@.len()) + enc_pairs(t.element_value_pairs@)
}

pub open spec fn enc_type_annotations(s: Seq<TypeAnnotation>) -> Seq<u8> {
    concat_map(s, |t: TypeAnnotation| enc_type_annotation(t))
}

/// The bytes of a code array: each instruction at the offset where the previous ones end.
pub open spec fn enc_code(s: Seq<Instruction>) -> Seq<u8>
    decreases s.len(),
{
    if s.len() == 0 {
        Seq::empty()
    } else {
        let before = enc_code(s.drop_last());
        before + spec_encode_instruction(s.last(), before.len())
    }
}

pub proof fn lemma_enc_code_prefix(s: Seq<Instruction>, i: int)
    requires
        0 <= i < s.len(),
    ensures
        enc_code(s.subrange(0, i + 1)) == enc_code(s.subrange(0, i)) + spec_encode_instruction(s[i], enc_code(s.subrange(0, i)).len()),
{
    assert(s.subrange(0, i + 1).drop_last() =~= s.subrange(0, i));
}

/// The kind of an attribute that has a structural form.
pub open spec fn attribute_kind(a: Attribute) -> Option<AttributeKind> {
    match a {
        Attribute::ConstantValue(..) => Some(AttributeKind::ConstantValue),
        Attribute::Code { .. } => Some(AttributeKind::Code),
        Attribute::StackMapTable(..) => Some(AttributeKind::StackMapTable),
        Attribute::Exceptions(..) => Some(AttributeKind::Exceptions),
        Attribute::InnerClasses(..) => Some(AttributeKind::InnerClasses),
        Attribute::EnclosingMethod { .. } => Some(AttributeKind::EnclosingMethod),
        Attribute::Synthetic => Some(AttributeKind::Synthetic),
        Attribute::Signature(..) => Some(AttributeKind::Signature),
        Attribute::SourceFile(..) => Some(AttributeKind::SourceFile),
        Attribute::SourceDebugExtension(..) => Some(AttributeKind::SourceDebugExtension),
        Attribute::LineNumberTable(..) => Some(AttributeKind::LineNumberTable),
        Attribute::LocalVariableTable(..) => Some(AttributeKind::LocalVariableTable),
        Attribute::LocalVariableTypeTable(..) => Some(AttributeKind::LocalVariableTypeTable),
        Attribute::Deprecated => Some(AttributeKind::Deprecated),
        Attribute::RuntimeVisibleAnnotations(..) => Some(AttributeKind::RuntimeVisibleAnnotations),
        Attribute::RuntimeInvisibleAnnotations(..) => Some(AttributeKind::RuntimeInvisibleAnnotations),
        Attribute::RuntimeVisibleParameterAnnotations(..) => Some(AttributeKind::RuntimeVisibleParameterAnnotations),
        Attribute::RuntimeInvisibleParameterAnnotations(..) => Some(AttributeKind::RuntimeInvisibleParameterAnnotations),
        Attribute::RuntimeVisibleTypeAnnotations(..) => Some(AttributeKind::RuntimeVisibleTypeAnnotations),
        Attribute::RuntimeInvisibleTypeAnnotations(..) => Some(AttributeKind::RuntimeInvisibleTypeAnnotations),
        Attribute::AnnotationDefault(..) => Some(AttributeKind::AnnotationDefault),
        Attribute::BootstrapMethods(..) => Some(AttributeKind::BootstrapMethods),
        Attribute::MethodParameters(..) => Some(AttributeKind::MethodParameters),
        Attribute::RawAttribute { .. } => None,
    }
}

/// The name index written for an attribute: a raw attribute keeps its own, the others
/// refer to the first utf8 constant of the pool that holds their kind's name.
pub open spec fn attribute_name_index(a: Attribute, cp: Seq<Constant>) -> nat {
    match a {
        Attribute::RawAttribute { name_index, .. } => name_index.idx as nat,
        _ => utf8_index(cp, kind_name(attribute_kind(a).unwrap())),
    }
}

/// The bytes of an attribute after its name index and length.
pub open spec fn attribute_body(a: Attribute, cp: Seq<Constant>) -> Seq<u8>
    decreases a, 0int,
{
    match a {
        Attribute::ConstantValue(i) => idx16(i),
        Attribute::Code { max_stack, max_locals, code, exception_table, attributes } =>
            be16(max_stack) + be16(max_locals) + be32(enc_code(code@).len() as u32) + enc_code(code@)
                + count16(exception_table@.len()) + concat_map(exception_table@, |h: ExceptionHandler| enc_handler(h))
                + count16(attributes@.len()) + enc_attributes(attributes@, cp),
        Attribute::StackMapTable(frames) => count16(frames@.len()) + concat_map(frames@, |f: StackMapFrame| enc_frame(f)),
        Attribute::Exceptions(v) => count16(v@.len()) + concat_map(v@, |i: ConstantPoolIndex| idx16(i)),
        Attribute::InnerClasses(v) => count16(v@.len()) + concat_map(v@, |c: InnerClass| enc_inner_class(c)),
        Attribute::EnclosingMethod { class_index, method_index } => idx16(class_index) + idx16(method_index),
        Attribute::Synthetic => Seq::empty(),
        Attribute::Signature(i) => idx16(i),
        Attribute::SourceFile(i) => idx16(i),
        Attribute::SourceDebugExtension(b) => b@,
        Attribute::LineNumberTable(v) => count16(v@.len()) + concat_map(v@, |l: LineNumberTable| enc_line(l)),
        Attribute::LocalVariableTable(v) => count16(v@.len()) + concat_map(v@, |l: LocalVariableTable| enc_local(l)),
        Attribute::LocalVariableTypeTable(v) => count16(v@.len()) + concat_map(v@, |l: LocalVariableTypeTable| enc_local_type(l)),
        Attribute::Deprecated => Seq::empty(),
        Attribute::RuntimeVisibleAnnotations(v) => count16(v@.len()) + enc_annotations(v@),
        Attribute::RuntimeInvisibleAnnotations(v) => count16(v@.len()) + enc_annotations(v@),
        Attribute::RuntimeVisibleParameterAnnotations(v) => seq![v@.len() as u8] + enc_parameter_annotations(v@),
        Attribute::RuntimeInvisibleParameterAnnotations(v) => seq![v@.len() as u8] + enc_parameter_annotations(v@),
        Attribute::RuntimeVisibleTypeAnnotations(v) => count16(v@.len()) + enc_type_annotations(v@),
        Attribute::RuntimeInvisibleTypeAnnotations(v) => count16(v@.len()) + enc_type_annotations(v@),
        Attribute::AnnotationDefault(e) => enc_element_value(e),
        Attribute::BootstrapMethods(v) => count16(v@.len()) + concat_map(v@, |b: BootstrapMethod| enc_bootstrap(b)),
        Attribute::MethodParameters(v) => seq![v@.len() as u8] + concat_map(v@, |p: MethodParameter| enc_method_parameter(p)),
        Attribute::RawAttribute { info, .. } => info@,
    }
}

/// An attribute: name index, body length, body.
pub open spec fn enc_attribute(a: Attribute, cp: Seq<Constant>) -> Seq<u8>
    decreases a, 1int,
{
    be16(#[verifier::truncate] (attribute_name_index(a, cp) as u16)) + be32(#[verifier::truncate] (attribute_body(a, cp).len() as u32)) + attribute_body(a, cp)
}

pub open spec fn enc_attributes(s: Seq<Attribute>, cp: Seq<Constant>) -> Seq<u8>
    decreases s, 0int,
{
    if s.len() == 0 {
        Seq::empty()
    } else {
        enc_attributes(s.subrange(0, s.len() - 1), cp) + enc_attribute(s[s.len() - 1], cp)
    }
}

/// A count of attributes, then the attributes.
pub open spec fn enc_attribute_list(s: Seq<Attribute>, cp: Seq<Constant>) -> Seq<u8> {
    count16(s.len()) + enc_attributes(s, cp)
}

pub open spec fn enc_field(f: Field, cp: Seq<Constant>) -> Seq<u8> {
    be16(f.access_flags.flags) + idx16(f.name_index) + idx16(f.descriptor_index) + enc_attribute_list(f.attributes@, cp)
}

pub open spec fn enc_method(m: Method, cp: Seq<Constant>) -> Seq<u8> {
    be16(m.access_flags.flags) + idx16(m.name_index) + idx16(m.descriptor_index) + enc_attribute_list(m.attributes@, cp)
}

/// The whole class file.
pub open spec fn enc_class(c: Classfile) -> Seq<u8> {
    let cp = c.constant_pool.constants@;
    be32(0xCAFEBABEu32) + be16(c.version.minor_version) + be16(c.version.major_version)
        + enc_pool(cp)
        + be16(c.access_flags.flags) + idx16(c.this_class) + idx16(c.super_class)
        + count16(c.interfaces@.len()) + concat_map(c.interfaces@, |i: ConstantPoolIndex| idx16(i))
        + count16(c.fields@.len()) + concat_map(c.fields@, |f: Field| enc_field(f, cp))
        + count16(c.methods@.len()) + concat_map(c.methods@, |m: Method| enc_method(m, cp))
        + enc_attribute_list(c.attributes@, cp)
}

} // verus!
