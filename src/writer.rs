//! The class-file writer: renders the model to bytes.
use vstd::prelude::*;
use crate::bytes::{be16, be32, be64};
use crate::classfile::{
    Annotation, Attribute, BootstrapMethod, Classfile, Constant, ConstantPool, ConstantPoolIndex,
    ElementValue, ElementValuePair, ExceptionHandler, Field, InnerClass, LineNumberTable,
    LocalVariableTable, LocalVariableTypeTable, Method, MethodParameter, StackMapFrame,
    TargetInfo, TypeAnnotation, TypePath, TypePathKind, VerificationType, AccessFlags,
    ClassfileVersion,
};
use crate::encode::{
    enc_target,
    attribute_body, attribute_kind, concat_map, count16, enc_annotation, enc_annotations,
    enc_attribute, enc_attribute_list, enc_attributes, enc_bootstrap, enc_class, enc_code,
    enc_constant, enc_element_value, enc_element_values, enc_field, enc_frame, enc_handler,
    enc_inner_class, enc_line, enc_local, enc_local_type, enc_method, enc_method_parameter,
    enc_pairs, enc_parameter_annotations, enc_pool, enc_type_annotation, enc_vtype, enc_vtypes,
    idx16, lemma_concat_map_prefix, lemma_enc_code_prefix,
};
use crate::names::AttributeKind as K;
use crate::classfile::spec_type_path_kind_value;
use crate::instruction::{Instruction, spec_encode_instruction, zeros};
use crate::names::kind_name_bytes;

verus! {

/// Accumulates the bytes of a class file.
pub struct ClassWriter {
    pub out: Vec<u8>,
}

impl ClassWriter {
    /// A writer with nothing written yet.
    pub fn new() -> (r: ClassWriter)
        ensures
            r.out@.len() == 0,
    {
        ClassWriter { out: Vec::new() }
    }

    /// The bytes written so far.
    pub fn into_bytes(self) -> (r: Vec<u8>)
        ensures
            r@ == self.out@,
    {
        self.out
    }

    /// Writes a whole class file; returns the number of bytes written.
    pub fn write_class(&mut self, classfile: &Classfile) -> (r: usize)
        ensures
            final(self).out@ == old(self).out@ + enc_class(*classfile),
            r == enc_class(*classfile).len(),
    {
        let ghost start = self.out@;
        let before = self.out.len();
        let cp = &classfile.constant_pool;
        self.write_magic_bytes();
        self.write_classfile_version(&classfile.version);
        self.write_constant_pool(cp);
        self.write_access_flags(&classfile.access_flags);
        self.write_constant_pool_index(&classfile.this_class);
        self.write_constant_pool_index(&classfile.super_class);
        self.write_interfaces(&classfile.interfaces);
        self.write_fields(&classfile.fields, cp);
        self.write_methods(&classfile.methods, cp);
        self.write_attributes(&classfile.attributes, cp);
        proof {
            assert(self.out@ =~= start + enc_class(*classfile));
        }
        self.out.len() - before
    }

    pub fn write_magic_bytes(&mut self)
        ensures
            final(self).out@ == old(self).out@ + be32(0xCAFEBABEu32),
    {
        self.write_u32(0xCAFEBABE);
    }

    pub fn write_classfile_version(&mut self, version: &ClassfileVersion)
        ensures
            final(self).out@ == old(self).out@ + be16(version.minor_version) + be16(version.major_version),
    {
        self.write_u16(version.minor_version);
        self.write_u16(version.major_version);
    }

    /// Writes the entry count of the pool (placeholders and the reserved entry included),
    /// then each constant.
    pub fn write_constant_pool(&mut self, cp: &ConstantPool)
        ensures
            final(self).out@ == old(self).out@ + enc_pool(cp.constants@),
    {
        let ghost s0 = self.out@;
        self.write_u16(cp.constants.len() as u16);

        let ghost start = self.out@;
        let mut i: usize = 0;
        while i < cp.constants.len()
            invariant
                0 <= i <= cp.constants@.len(),
                self.out@ == start + concat_map(cp.constants@.subrange(0, i as int), |c: Constant| enc_constant(c)),
            decreases cp.constants@.len() - i,
        {
            proof {
                lemma_concat_map_prefix(cp.constants@, i as int, |c: Constant| enc_constant(c));
            }
            self.write_constant(&cp.constants[i]);
            i = i + 1;
        }
        proof {
            assert(cp.constants@.subrange(0, cp.constants@.len() as int) =~= cp.constants@);
        }

        proof {
            assert(self.out@ =~= s0 + enc_pool(cp.constants@));
        }
    }

    #[verifier::spinoff_prover]
    fn write_constant(&mut self, constant: &Constant)
        ensures
            final(self).out@ == old(self).out@ + enc_constant(*constant),
    {
        let ghost s0 = self.out@;
        match constant {
            Constant::Utf8(bytes) => {
                self.write_u8(1);
                self.write_u16(bytes.len() as u16);
                self.write_n(bytes);
            },
            Constant::Integer(v) => {
                self.write_u8(3);
                self.write_u32(*v);
            },
            Constant::Float(v) => {
                self.write_u8(4);
                self.write_u32(*v);
            },
            Constant::Long(v) => {
                self.write_u8(5);
                self.write_u64(*v);
            },
            Constant::Double(v) => {
                self.write_u8(6);
                self.write_u64(*v);
            },
            Constant::Class(i) => {
                self.write_u8(7);
                self.write_constant_pool_index(i);
            },
            Constant::String(i) => {
                self.write_u8(8);
                self.write_constant_pool_index(i);
            },
            Constant::FieldRef { class_index, name_and_type_index } => {
                self.write_u8(9);
                self.write_constant_pool_index(class_index);
                self.write_constant_pool_index(name_and_type_index);
            },
            Constant::MethodRef { class_index, name_and_type_index } => {
                self.write_u8(10);
                self.write_constant_pool_index(class_index);
                self.write_constant_pool_index(name_and_type_index);
            },
            Constant::InterfaceMethodRef { class_index, name_and_type_index } => {
                self.write_u8(11);
                self.write_constant_pool_index(class_index);
                self.write_constant_pool_index(name_and_type_index);
            },
            Constant::NameAndType { name_index, descriptor_index } => {
                self.write_u8(12);
                self.write_constant_pool_index(name_index);
                self.write_constant_pool_index(descriptor_index);
            },
            Constant::MethodHandle { reference_kind, reference_index } => {
                self.write_u8(15);
                self.write_u8(reference_kind.to_u8());
                self.write_constant_pool_index(reference_index);
            },
            Constant::MethodType(i) => {
                self.write_u8(16);
                self.write_constant_pool_index(i);
            },
            Constant::InvokeDynamic { bootstrap_method_attr_index, name_and_type_index } => {
                self.write_u8(18);
                self.write_constant_pool_index(bootstrap_method_attr_index);
                self.write_constant_pool_index(name_and_type_index);
            },
            Constant::Unknown(tag) => {
                self.write_u8(*tag);
            },
            Constant::Placeholder => {},
        }
        proof {
            assert(self.out@ =~= s0 + enc_constant(*constant));
        }
    }

    fn write_access_flags(&mut self, flags: &AccessFlags)
        ensures
            final(self).out@ == old(self).out@ + be16(flags.flags),
    {
        self.write_u16(flags.flags);
    }

    fn write_constant_pool_index(&mut self, index: &ConstantPoolIndex)
        ensures
            final(self).out@ == old(self).out@ + idx16(*index),
    {
        self.write_u16(index.idx as u16);
    }

    fn write_count(&mut self, n: usize)
        ensures
            final(self).out@ == old(self).out@ + count16(n as nat),
    {
        self.write_u16(n as u16);
    }

    fn write_interfaces(&mut self, ifs: &Vec<ConstantPoolIndex>)
        ensures
            final(self).out@ == old(self).out@ + count16(ifs@.len()) + concat_map(ifs@, |i: ConstantPoolIndex| idx16(i)),
    {
        let ghost s0 = self.out@;
        self.write_count(ifs.len());

        let ghost start = self.out@;
        let mut i: usize = 0;
        while i < ifs.len()
            invariant
                0 <= i <= ifs@.len(),
                self.out@ == start + concat_map(ifs@.subrange(0, i as int), |i: ConstantPoolIndex| idx16(i)),
            decreases ifs@.len() - i,
        {
            proof {
                lemma_concat_map_prefix(ifs@, i as int, |i: ConstantPoolIndex| idx16(i));
            }
            self.write_constant_pool_index(&ifs[i]);
            i = i + 1;
        }
        proof {
            assert(ifs@.subrange(0, ifs@.len() as int) =~= ifs@);
        }

        proof {
            assert(self.out@ =~= s0 + count16(ifs@.len()) + concat_map(ifs@, |i: ConstantPoolIndex| idx16(i)));
        }
    }

    fn write_fields(&mut self, fields: &Vec<Field>, cp: &ConstantPool)
        ensures
            final(self).out@ == old(self).out@ + count16(fields@.len()) + concat_map(fields@, |f: Field| enc_field(f, cp.constants@)),
    {
        let ghost s0 = self.out@;
        self.write_count(fields.len());

        let ghost start = self.out@;
        let mut i: usize = 0;
        while i < fields.len()
            invariant
                0 <= i <= fields@.len(),
                self.out@ == start + concat_map(fields@.subrange(0, i as int), |f: Field| enc_field(f, cp.constants@)),
            decreases fields@.len() - i,
        {
            proof {
                lemma_concat_map_prefix(fields@, i as int, |f: Field| enc_field(f, cp.constants@));
            }
            self.write_field(&fields[i], cp);
            i = i + 1;
        }
        proof {
            assert(fields@.subrange(0, fields@.len() as int) =~= fields@);
        }

        proof {
            assert(self.out@ =~= s0 + count16(fields@.len()) + concat_map(fields@, |f: Field| enc_field(f, cp.constants@)));
        }
    }

    fn write_field(&mut self, field: &Field, cp: &ConstantPool)
        ensures
            final(self).out@ == old(self).out@ + enc_field(*field, cp.constants@),
    {
        let ghost s0 = self.out@;
        self.write_access_flags(&field.access_flags);
        self.write_constant_pool_index(&field.name_index);
        self.write_constant_pool_index(&field.descriptor_index);
        self.write_attributes(&field.attributes, cp);
        proof {
            assert(self.out@ =~= s0 + enc_field(*field, cp.constants@));
        }
    }

    fn write_methods(&mut self, methods: &Vec<Method>, cp: &ConstantPool)
        ensures
            final(self).out@ == old(self).out@ + count16(methods@.len()) + concat_map(methods@, |m: Method| enc_method(m, cp.constants@)),
    {
        let ghost s0 = self.out@;
        self.write_count(methods.len());

        let ghost start = self.out@;
        let mut i: usize = 0;
        while i < methods.len()
            invariant
                0 <= i <= methods@.len(),
                self.out@ == start + concat_map(methods@.subrange(0, i as int), |m: Method| enc_method(m, cp.constants@)),
            decreases methods@.len() - i,
        {
            proof {
                lemma_concat_map_prefix(methods@, i as int, |m: Method| enc_method(m, cp.constants@));
            }
            self.write_method(&methods[i], cp);
            i = i + 1;
        }
        proof {
            assert(methods@.subrange(0, methods@.len() as int) =~= methods@);
        }

        proof {
            assert(self.out@ =~= s0 + count16(methods@.len()) + concat_map(methods@, |m: Method| enc_method(m, cp.constants@)));
        }
    }

    fn write_method(&mut self, method: &Method, cp: &ConstantPool)
        ensures
            final(self).out@ == old(self).out@ + enc_method(*method, cp.constants@),
    {
        let ghost s0 = self.out@;
        self.write_access_flags(&method.access_flags);
        self.write_constant_pool_index(&method.name_index);
        self.write_constant_pool_index(&method.descriptor_index);
        self.write_attributes(&method.attributes, cp);
        proof {
            assert(self.out@ =~= s0 + enc_method(*method, cp.constants@));
        }
    }

    /// Writes a count of attributes, then each attribute.
    pub fn write_attributes(&mut self, attributes: &Vec<Attribute>, cp: &ConstantPool)
        ensures
            final(self).out@ == old(self).out@ + enc_attribute_list(attributes@, cp.constants@),
        decreases attributes@, 1int,
    {
        let ghost s0 = self.out@;
        self.write_count(attributes.len());
        let ghost start = self.out@;
        let mut i: usize = 0;
        while i < attributes.len()
            invariant
                0 <= i <= attributes@.len(),
                self.out@ == start + enc_attributes(attributes@.subrange(0, i as int), cp.constants@),
            decreases attributes@.len() - i,
        {
            proof {
                let s = attributes@.subrange(0, i as int + 1);
                assert(s.subrange(0, s.len() - 1) =~= attributes@.subrange(0, i as int));
                assert(s[s.len() - 1] == attributes@[i as int]);
                assert(decreases_to!(attributes@ => attributes@[i as int]));
            }
            self.write_attribute(&attributes[i], cp);
            i = i + 1;
        }
        proof {
            assert(attributes@.subrange(0, attributes@.len() as int) =~= attributes@);
            assert(self.out@ =~= s0 + enc_attribute_list(attributes@, cp.constants@));
        }
    }

    /// Writes one attribute: name index, length, body. Structural attributes name their
    /// kind through the first utf8 constant of the pool that holds it.
    pub fn write_attribute(&mut self, attribute: &Attribute, cp: &ConstantPool)
        ensures
            final(self).out@ == old(self).out@ + enc_attribute(*attribute, cp.constants@),
        decreases attribute, 2int,
    {
        let name_index: usize = match attribute {
            Attribute::RawAttribute { name_index, .. } => name_index.idx,
            _ => {
                let kind = attribute_kind_of(attribute);
                let name = kind_name_bytes(kind);
                cp.get_utf8_index(&name)
            },
        };
        let mut body = ClassWriter::new();
        body.write_attribute_body(attribute, cp);
        proof {
            assert(body.out@ =~= attribute_body(*attribute, cp.constants@));
        }
        self.write_u16(name_index as u16);
        self.write_u32(body.out.len() as u32);
        self.write_n(&body.out);
    }

    #[verifier::rlimit(60)]
    #[verifier::spinoff_prover]
    fn write_attribute_body(&mut self, attribute: &Attribute, cp: &ConstantPool)
        ensures
            final(self).out@ == old(self).out@ + attribute_body(*attribute, cp.constants@),
        decreases attribute, 0int,
    {
        let ghost s0 = self.out@;
        match attribute {
            Attribute::ConstantValue(i) => {
                self.write_constant_pool_index(i);
            },
            Attribute::Code { max_stack, max_locals, code, exception_table, attributes } => {
                self.write_u16(*max_stack);
                self.write_u16(*max_locals);
                self.write_instructions(code);
                self.write_count(exception_table.len());

                let ghost start = self.out@;
                let mut i: usize = 0;
                while i < exception_table.len()
                    invariant
                        0 <= i <= exception_table@.len(),
                        self.out@ == start + concat_map(exception_table@.subrange(0, i as int), |h: ExceptionHandler| enc_handler(h)),
                    decreases exception_table@.len() - i,
                {
                    proof {
                        lemma_concat_map_prefix(exception_table@, i as int, |h: ExceptionHandler| enc_handler(h));
                    }
                    self.write_exception_handler(&exception_table[i]);
                    i = i + 1;
                }
                proof {
                    assert(exception_table@.subrange(0, exception_table@.len() as int) =~= exception_table@);
                }

                self.write_attributes(attributes, cp);
            },
            Attribute::StackMapTable(frames) => {
                self.write_count(frames.len());
                self.write_frames(frames);
            },
            Attribute::Exceptions(v) => {
                self.write_count(v.len());
                self.write_indices(v);
            },
            Attribute::InnerClasses(v) => {
                self.write_count(v.len());
                self.write_inner_classes(v);
            },
            Attribute::EnclosingMethod { class_index, method_index } => {
                self.write_constant_pool_index(class_index);
                self.write_constant_pool_index(method_index);
            },
            Attribute::Synthetic => {},
            Attribute::Signature(i) => {
                self.write_constant_pool_index(i);
            },
            Attribute::SourceFile(i) => {
                self.write_constant_pool_index(i);
            },
            Attribute::SourceDebugExtension(b) => {
                self.write_n(b);
            },
            Attribute::LineNumberTable(v) => {
                self.write_count(v.len());
                self.write_line_numbers(v);
            },
            Attribute::LocalVariableTable(v) => {
                self.write_count(v.len());
                self.write_local_variables(v);
            },
            Attribute::LocalVariableTypeTable(v) => {
                self.write_count(v.len());
                self.write_local_variable_types(v);
            },
            Attribute::Deprecated => {},
            Attribute::RuntimeVisibleAnnotations(v) => {
                self.write_count(v.len());
                self.write_annotations(v);
            },
            Attribute::RuntimeInvisibleAnnotations(v) => {
                self.write_count(v.len());
                self.write_annotations(v);
            },
            Attribute::RuntimeVisibleParameterAnnotations(v) => {
                self.write_u8(v.len() as u8);
                self.write_parameter_annotations(v);
            },
            Attribute::RuntimeInvisibleParameterAnnotations(v) => {
                self.write_u8(v.len() as u8);
                self.write_parameter_annotations(v);
            },
            Attribute::RuntimeVisibleTypeAnnotations(v) => {
                self.write_count(v.len());
                self.write_type_annotations(v);
            },
            Attribute::RuntimeInvisibleTypeAnnotations(v) => {
                self.write_count(v.len());
                self.write_type_annotations(v);
            },
            Attribute::AnnotationDefault(e) => {
                self.write_element_value(e);
            },
            Attribute::BootstrapMethods(v) => {
                self.write_count(v.len());
                self.write_bootstrap_methods(v);
            },
            Attribute::MethodParameters(v) => {
                self.write_u8(v.len() as u8);
                self.write_method_parameters(v);
            },
            Attribute::RawAttribute { info, .. } => {
                self.write_n(info);
            },
        }
        proof {
            assert(self.out@ =~= s0 + attribute_body(*attribute, cp.constants@));
        }
    }

    fn write_frames(&mut self, frames: &Vec<StackMapFrame>)
        ensures
            final(self).out@ == old(self).out@ + concat_map(frames@, |f: StackMapFrame| enc_frame(f)),
    {
        let ghost start = self.out@;
        let mut i: usize = 0;
        while i < frames.len()
            invariant
                0 <= i <= frames@.len(),
                self.out@ == start + concat_map(frames@.subrange(0, i as int), |f: StackMapFrame| enc_frame(f)),
            decreases frames@.len() - i,
        {
            proof {
                lemma_concat_map_prefix(frames@, i as int, |f: StackMapFrame| enc_frame(f));
            }
            self.write_stack_map_frame(&frames[i]);
            i = i + 1;
        }
        proof {
            assert(frames@.subrange(0, frames@.len() as int) =~= frames@);
        }

    }

    fn write_indices(&mut self, v: &Vec<ConstantPoolIndex>)
        ensures
            final(self).out@ == old(self).out@ + concat_map(v@, |i: ConstantPoolIndex| idx16(i)),
    {
        let ghost start = self.out@;
        let mut i: usize = 0;
        while i < v.len()
            invariant
                0 <= i <= v@.len(),
                self.out@ == start + concat_map(v@.subrange(0, i as int), |i: ConstantPoolIndex| idx16(i)),
            decreases v@.len() - i,
        {
            proof {
                lemma_concat_map_prefix(v@, i as int, |i: ConstantPoolIndex| idx16(i));
            }
            self.write_constant_pool_index(&v[i]);
            i = i + 1;
        }
        proof {
            assert(v@.subrange(0, v@.len() as int) =~= v@);
        }

    }

    fn write_inner_classes(&mut self, v: &Vec<InnerClass>)
        ensures
            final(self).out@ == old(self).out@ + concat_map(v@, |c: InnerClass| enc_inner_class(c)),
    {
        let ghost start = self.out@;
        let mut i: usize = 0;
        while i < v.len()
            invariant
                0 <= i <= v@.len(),
                self.out@ == start + concat_map(v@.subrange(0, i as int), |c: InnerClass| enc_inner_class(c)),
            decreases v@.len() - i,
        {
            proof {
                lemma_concat_map_prefix(v@, i as int, |c: InnerClass| enc_inner_class(c));
            }
            self.write_inner_class(&v[i]);
            i = i + 1;
        }
        proof {
            assert(v@.subrange(0, v@.len() as int) =~= v@);
        }

    }

    fn write_line_numbers(&mut self, v: &Vec<LineNumberTable>)
        ensures
            final(self).out@ == old(self).out@ + concat_map(v@, |l: LineNumberTable| enc_line(l)),
    {
        let ghost start = self.out@;
        let mut i: usize = 0;
        while i < v.len()
            invariant
                0 <= i <= v@.len(),
                self.out@ == start + concat_map(v@.subrange(0, i as int), |l: LineNumberTable| enc_line(l)),
            decreases v@.len() - i,
        {
            proof {
                lemma_concat_map_prefix(v@, i as int, |l: LineNumberTable| enc_line(l));
            }
            self.write_u16(v[i].start_pc);
            self.write_u16(v[i].line_number);
            i = i + 1;
        }
        proof {
            assert(v@.subrange(0, v@.len() as int) =~= v@);
        }

    }

    fn write_local_variables(&mut self, v: &Vec<LocalVariableTable>)
        ensures
            final(self).out@ == old(self).out@ + concat_map(v@, |l: LocalVariableTable| enc_local(l)),
    {
        let ghost start = self.out@;
        let mut i: usize = 0;
        while i < v.len()
            invariant
                0 <= i <= v@.len(),
                self.out@ == start + concat_map(v@.subrange(0, i as int), |l: LocalVariableTable| enc_local(l)),
            decreases v@.len() - i,
        {
            proof {
                lemma_concat_map_prefix(v@, i as int, |l: LocalVariableTable| enc_local(l));
            }
            self.write_local_variable(&v[i]);
            i = i + 1;
        }
        proof {
            assert(v@.subrange(0, v@.len() as int) =~= v@);
        }

    }

    fn write_local_variable_types(&mut self, v: &Vec<LocalVariableTypeTable>)
        ensures
            final(self).out@ == old(self).out@ + concat_map(v@, |l: LocalVariableTypeTable| enc_local_type(l)),
    {
        let ghost start = self.out@;
        let mut i: usize = 0;
        while i < v.len()
            invariant
                0 <= i <= v@.len(),
                self.out@ == start + concat_map(v@.subrange(0, i as int), |l: LocalVariableTypeTable| enc_local_type(l)),
            decreases v@.len() - i,
        {
            proof {
                lemma_concat_map_prefix(v@, i as int, |l: LocalVariableTypeTable| enc_local_type(l));
            }
            self.write_local_variable_type(&v[i]);
            i = i + 1;
        }
        proof {
            assert(v@.subrange(0, v@.len() as int) =~= v@);
        }

    }

    fn write_type_annotations(&mut self, v: &Vec<TypeAnnotation>)
        ensures
            final(self).out@ == old(self).out@ + concat_map(v@, |t: TypeAnnotation| enc_type_annotation(t)),
    {
        let ghost start = self.out@;
        let mut i: usize = 0;
        while i < v.len()
            invariant
                0 <= i <= v@.len(),
                self.out@ == start + concat_map(v@.subrange(0, i as int), |t: TypeAnnotation| enc_type_annotation(t)),
            decreases v@.len() - i,
        {
            proof {
                lemma_concat_map_prefix(v@, i as int, |t: TypeAnnotation| enc_type_annotation(t));
            }
            self.write_type_annotation(&v[i]);
            i = i + 1;
        }
        proof {
            assert(v@.subrange(0, v@.len() as int) =~= v@);
        }

    }

    fn write_bootstrap_methods(&mut self, v: &Vec<BootstrapMethod>)
        ensures
            final(self).out@ == old(self).out@ + concat_map(v@, |b: BootstrapMethod| enc_bootstrap(b)),
    {
        let ghost start = self.out@;
        let mut i: usize = 0;
        while i < v.len()
            invariant
                0 <= i <= v@.len(),
                self.out@ == start + concat_map(v@.subrange(0, i as int), |b: BootstrapMethod| enc_bootstrap(b)),
            decreases v@.len() - i,
        {
            proof {
                lemma_concat_map_prefix(v@, i as int, |b: BootstrapMethod| enc_bootstrap(b));
            }
            self.write_bootstrap_method(&v[i]);
            i = i + 1;
        }
        proof {
            assert(v@.subrange(0, v@.len() as int) =~= v@);
        }

    }

    fn write_method_parameters(&mut self, v: &Vec<MethodParameter>)
        ensures
            final(self).out@ == old(self).out@ + concat_map(v@, |p: MethodParameter| enc_method_parameter(p)),
    {
        let ghost start = self.out@;
        let mut i: usize = 0;
        while i < v.len()
            invariant
                0 <= i <= v@.len(),
                self.out@ == start + concat_map(v@.subrange(0, i as int), |p: MethodParameter| enc_method_parameter(p)),
            decreases v@.len() - i,
        {
            proof {
                lemma_concat_map_prefix(v@, i as int, |p: MethodParameter| enc_method_parameter(p));
            }
            self.write_constant_pool_index(&v[i].name_index);
            self.write_u16(v[i].access_flags.flags);
            i = i + 1;
        }
        proof {
            assert(v@.subrange(0, v@.len() as int) =~= v@);
        }

    }

    fn write_exception_handler(&mut self, h: &ExceptionHandler)
        ensures
            final(self).out@ == old(self).out@ + enc_handler(*h),
    {
        self.write_u16(h.start_pc);
        self.write_u16(h.end_pc);
        self.write_u16(h.handler_pc);
        self.write_constant_pool_index(&h.catch_type);
    }

    fn write_inner_class(&mut self, c: &InnerClass)
        ensures
            final(self).out@ == old(self).out@ + enc_inner_class(*c),
    {
        self.write_constant_pool_index(&c.inner_class_info_index);
        self.write_constant_pool_index(&c.outer_class_info_index);
        self.write_constant_pool_index(&c.inner_name_index);
        self.write_u16(c.access_flags.flags);
    }

    fn write_local_variable(&mut self, l: &LocalVariableTable)
        ensures
            final(self).out@ == old(self).out@ + enc_local(*l),
    {
        self.write_u16(l.start_pc);
        self.write_u16(l.length);
        self.write_constant_pool_index(&l.name_index);
        self.write_constant_pool_index(&l.descriptor_index);
        self.write_u16(l.index);
    }

    fn write_local_variable_type(&mut self, l: &LocalVariableTypeTable)
        ensures
            final(self).out@ == old(self).out@ + enc_local_type(*l),
    {
        self.write_u16(l.start_pc);
        self.write_u16(l.length);
        self.write_constant_pool_index(&l.name_index);
        self.write_constant_pool_index(&l.signature_index);
        self.write_u16(l.index);
    }

    fn write_bootstrap_method(&mut self, b: &BootstrapMethod)
        ensures
            final(self).out@ == old(self).out@ + enc_bootstrap(*b),
    {
        let ghost s0 = self.out@;
        self.write_constant_pool_index(&b.bootstrap_method_ref);
        self.write_count(b.bootstrap_arguments.len());
        let args = &b.bootstrap_arguments;

        let ghost start = self.out@;
        let mut i: usize = 0;
        while i < args.len()
            invariant
                0 <= i <= args@.len(),
                self.out@ == start + concat_map(args@.subrange(0, i as int), |i: ConstantPoolIndex| idx16(i)),
            decreases args@.len() - i,
        {
            proof {
                lemma_concat_map_prefix(args@, i as int, |i: ConstantPoolIndex| idx16(i));
            }
            self.write_constant_pool_index(&args[i]);
            i = i + 1;
        }
        proof {
            assert(args@.subrange(0, args@.len() as int) =~= args@);
        }

        proof {
            assert(self.out@ =~= s0 + enc_bootstrap(*b));
        }
    }

    #[verifier::spinoff_prover]
    pub fn write_stack_map_frame(&mut self, frame: &StackMapFrame)
        ensures
            final(self).out@ == old(self).out@ + enc_frame(*frame),
    {
        let ghost s0 = self.out@;
        match frame {
            StackMapFrame::SameFrame { tag } => {
                self.write_u8(*tag);
            },
            StackMapFrame::SameLocals1StackItemFrame { tag, stack } => {
                self.write_u8(*tag);
                self.write_verification_type(stack);
            },
            StackMapFrame::SameLocals1StackItemFrameExtended { offset_delta, stack } => {
                self.write_u8(247);
                self.write_u16(*offset_delta);
                self.write_verification_type(stack);
            },
            StackMapFrame::ChopFrame { tag, offset_delta } => {
                self.write_u8(*tag);
                self.write_u16(*offset_delta);
            },
            StackMapFrame::SameFrameExtended { offset_delta } => {
                self.write_u8(251);
                self.write_u16(*offset_delta);
            },
            StackMapFrame::AppendFrame { tag, offset_delta, locals } => {
                self.write_u8(*tag);
                self.write_u16(*offset_delta);
                self.write_verification_types(locals);
            },
            StackMapFrame::FullFrame { offset_delta, locals, stack } => {
                self.write_u8(255);
                self.write_u16(*offset_delta);
                self.write_count(locals.len());
                self.write_verification_types(locals);
                self.write_count(stack.len());
                self.write_verification_types(stack);
            },
            StackMapFrame::FutureUse { tag } => {
                self.write_u8(*tag);
            },
        }
        proof {
            assert(self.out@ =~= s0 + enc_frame(*frame));
        }
    }

    fn write_verification_types(&mut self, v: &Vec<VerificationType>)
        ensures
            final(self).out@ == old(self).out@ + enc_vtypes(v@),
    {

        let ghost start = self.out@;
        let mut i: usize = 0;
        while i < v.len()
            invariant
                0 <= i <= v@.len(),
                self.out@ == start + concat_map(v@.subrange(0, i as int), |v: VerificationType| enc_vtype(v)),
            decreases v@.len() - i,
        {
            proof {
                lemma_concat_map_prefix(v@, i as int, |v: VerificationType| enc_vtype(v));
            }
            self.write_verification_type(&v[i]);
            i = i + 1;
        }
        proof {
            assert(v@.subrange(0, v@.len() as int) =~= v@);
        }

    }

    pub fn write_verification_type(&mut self, info: &VerificationType)
        ensures
            final(self).out@ == old(self).out@ + enc_vtype(*info),
    {
        let ghost s0 = self.out@;
        match info {
            VerificationType::Top => self.write_u8(0),
            VerificationType::Integer => self.write_u8(1),
            VerificationType::Float => self.write_u8(2),
            VerificationType::Double => self.write_u8(3),
            VerificationType::Long => self.write_u8(4),
            VerificationType::Null => self.write_u8(5),
            VerificationType::UninitializedThis => self.write_u8(6),
            VerificationType::Object { cpool_index } => {
                self.write_u8(7);
                self.write_constant_pool_index(cpool_index);
            },
            VerificationType::Uninitialized { offset } => {
                self.write_u8(8);
                self.write_u16(*offset);
            },
        }
        proof {
            assert(self.out@ =~= s0 + enc_vtype(*info));
        }
    }

    fn write_annotations(&mut self, v: &Vec<Annotation>)
        ensures
            final(self).out@ == old(self).out@ + enc_annotations(v@),
    {

        let ghost start = self.out@;
        let mut i: usize = 0;
        while i < v.len()
            invariant
                0 <= i <= v@.len(),
                self.out@ == start + concat_map(v@.subrange(0, i as int), |a: Annotation| enc_annotation(a)),
            decreases v@.len() - i,
        {
            proof {
                lemma_concat_map_prefix(v@, i as int, |a: Annotation| enc_annotation(a));
            }
            self.write_annotation(&v[i]);
            i = i + 1;
        }
        proof {
            assert(v@.subrange(0, v@.len() as int) =~= v@);
        }

    }

    fn write_parameter_annotations(&mut self, v: &Vec<Vec<Annotation>>)
        ensures
            final(self).out@ == old(self).out@ + enc_parameter_annotations(v@),
    {

        let ghost start = self.out@;
        let mut i: usize = 0;
        while i < v.len()
            invariant
                0 <= i <= v@.len(),
                self.out@ == start + concat_map(v@.subrange(0, i as int), |v: Vec<Annotation>| count16(v@.len()) + enc_annotations(v@)),
            decreases v@.len() - i,
        {
            proof {
                lemma_concat_map_prefix(v@, i as int, |v: Vec<Annotation>| count16(v@.len()) + enc_annotations(v@));
            }
            self.write_count(v[i].len());
            self.write_annotations(&v[i]);
            i = i + 1;
        }
        proof {
            assert(v@.subrange(0, v@.len() as int) =~= v@);
        }

    }

    /// Writes an annotation: type index, pair count, pairs.
    pub fn write_annotation(&mut self, annotation: &Annotation)
        ensures
            final(self).out@ == old(self).out@ + enc_annotation(*annotation),
        decreases annotation, 1int,
    {
        let ghost s0 = self.out@;
        self.write_constant_pool_index(&annotation.type_index);
        self.write_count(annotation.element_value_pairs.len());
        self.write_element_value_pairs(&annotation.element_value_pairs);
        proof {
            assert(self.out@ =~= s0 + enc_annotation(*annotation));
        }
    }

    fn write_element_value_pairs(&mut self, pairs: &Vec<ElementValuePair>)
        ensures
            final(self).out@ == old(self).out@ + enc_pairs(pairs@),
        decreases pairs@, 0int,
    {
        let ghost start = self.out@;
        let mut i: usize = 0;
        while i < pairs.len()
            invariant
                0 <= i <= pairs@.len(),
                self.out@ == start + enc_pairs(pairs@.subrange(0, i as int)),
            decreases pairs@.len() - i,
        {
            proof {
                let s = pairs@.subrange(0, i as int + 1);
                assert(s.subrange(0, s.len() - 1) =~= pairs@.subrange(0, i as int));
                assert(s[s.len() - 1] == pairs@[i as int]);
                assert(decreases_to!(pairs@ => pairs@[i as int]));
            }
            self.write_element_value_pair(&pairs[i]);
            i = i + 1;
        }
        proof {
            assert(pairs@.subrange(0, pairs@.len() as int) =~= pairs@);
        }
    }

    pub fn write_element_value_pair(&mut self, pair: &ElementValuePair)
        ensures
            final(self).out@ == old(self).out@ + idx16(pair.element_name_index) + enc_element_value(pair.value),
        decreases pair, 0int,
    {
        self.write_constant_pool_index(&pair.element_name_index);
        self.write_element_value(&pair.value);
    }

    /// Writes an element value: its tag, then its content.
    #[verifier::spinoff_prover]
    pub fn write_element_value(&mut self, element_value: &ElementValue)
        ensures
            final(self).out@ == old(self).out@ + enc_element_value(*element_value),
        decreases element_value, 0int,
    {
        let ghost s0 = self.out@;
        match element_value {
            ElementValue::ConstantValue(tag, i) => {
                self.write_u8(*tag);
                self.write_constant_pool_index(i);
            },
            ElementValue::Enum { type_name_index, const_name_index } => {
                self.write_u8(101);
                self.write_constant_pool_index(type_name_index);
                self.write_constant_pool_index(const_name_index);
            },
            ElementValue::ClassInfo(i) => {
                self.write_u8(99);
                self.write_constant_pool_index(i);
            },
            ElementValue::Annotation(a) => {
                self.write_u8(64);
                self.write_annotation(a);
            },
            ElementValue::Array(v) => {
                self.write_u8(91);
                self.write_count(v.len());
                self.write_element_values(v);
            },
        }
        proof {
            assert(self.out@ =~= s0 + enc_element_value(*element_value));
        }
    }

    fn write_element_values(&mut self, v: &Vec<ElementValue>)
        ensures
            final(self).out@ == old(self).out@ + enc_element_values(v@),
        decreases v@, 1int,
    {
        let ghost start = self.out@;
        let mut i: usize = 0;
        while i < v.len()
            invariant
                0 <= i <= v@.len(),
                self.out@ == start + enc_element_values(v@.subrange(0, i as int)),
            decreases v@.len() - i,
        {
            proof {
                let s = v@.subrange(0, i as int + 1);
                assert(s.subrange(0, s.len() - 1) =~= v@.subrange(0, i as int));
                assert(s[s.len() - 1] == v@[i as int]);
                assert(decreases_to!(v@ => v@[i as int]));
            }
            self.write_element_value(&v[i]);
            i = i + 1;
        }
        proof {
            assert(v@.subrange(0, v@.len() as int) =~= v@);
        }
    }

    pub fn write_target(&mut self, target: &TargetInfo)
        ensures
            final(self).out@ == old(self).out@ + enc_target(*target),
    {
        let ghost s0 = self.out@;
        match target {
            TargetInfo::TypeParameter { idx, .. } => self.write_u8(*idx),
            TargetInfo::SuperType { idx } => self.write_u16(*idx),
            TargetInfo::TypeParameterBound { param_idx, bound_index, .. } => {
                self.write_u8(*param_idx);
                self.write_u8(*bound_index);
            },
            TargetInfo::Empty { .. } => {},
            TargetInfo::MethodFormalParameter { idx } => self.write_u8(*idx),
            TargetInfo::Throws { idx } => self.write_u16(*idx),
            TargetInfo::LocalVar { target, .. } => {
                self.write_count(target.len());

                    let ghost start = self.out@;
                    let mut i: usize = 0;
                    while i < target.len()
                        invariant
                            0 <= i <= target@.len(),
                            self.out@ == start + concat_map(target@.subrange(0, i as int), |e: (u16, u16, u16)| be16(e.0) + be16(e.1) + be16(e.2)),
                        decreases target@.len() - i,
                    {
                        proof {
                            lemma_concat_map_prefix(target@, i as int, |e: (u16, u16, u16)| be16(e.0) + be16(e.1) + be16(e.2));
                        }
                        self.write_u16(target[i].0);
                        self.write_u16(target[i].1);
                        self.write_u16(target[i].2);
                        i = i + 1;
                    }
                    proof {
                        assert(target@.subrange(0, target@.len() as int) =~= target@);
                    }

            },
            TargetInfo::Catch { idx } => self.write_u16(*idx),
            TargetInfo::Offset { idx, .. } => self.write_u16(*idx),
            TargetInfo::TypeArgument { offset, type_arg_idx, .. } => {
                self.write_u16(*offset);
                self.write_u8(*type_arg_idx);
            },
        }
        proof {
            assert(self.out@ =~= s0 + enc_target(*target));
        }
    }

    #[verifier::spinoff_prover]
    pub fn write_type_annotation(&mut self, annotation: &TypeAnnotation)
        ensures
            final(self).out@ == old(self).out@ + enc_type_annotation(*annotation),
    {
        let ghost s0 = self.out@;
        let target = &annotation.target_info;
        self.write_u8(target.subtype());
        self.write_target(target);
        let path = &annotation.target_path.path;
        self.write_u8(path.len() as u8);

        let ghost start = self.out@;
        let mut i: usize = 0;
        while i < path.len()
            invariant
                0 <= i <= path@.len(),
                self.out@ == start + concat_map(path@.subrange(0, i as int), |e: (TypePathKind, u8)| seq![spec_type_path_kind_value(e.0), e.1]),
            decreases path@.len() - i,
        {
            proof {
                lemma_concat_map_prefix(path@, i as int, |e: (TypePathKind, u8)| seq![spec_type_path_kind_value(e.0), e.1]);
            }
            self.write_u8(path[i].0.value());
            self.write_u8(path[i].1);
            i = i + 1;
        }
        proof {
            assert(path@.subrange(0, path@.len() as int) =~= path@);
        }

        self.write_constant_pool_index(&annotation.type_index);
        self.write_count(annotation.element_value_pairs.len());
        self.write_element_value_pairs(&annotation.element_value_pairs);
        proof {
            assert(self.out@ =~= s0 + enc_type_annotation(*annotation));
        }
    }

    /// Writes the code length, then the code array, each instruction at the offset where
    /// the previous ones end.
    pub fn write_instructions(&mut self, instructions: &Vec<Instruction>)
        ensures
            final(self).out@ == old(self).out@ + be32(enc_code(instructions@).len() as u32) + enc_code(instructions@),
    {
        let mut code = ClassWriter::new();
        let mut i: usize = 0;
        while i < instructions.len()
            invariant
                0 <= i <= instructions@.len(),
                code.out@ == enc_code(instructions@.subrange(0, i as int)),
            decreases instructions@.len() - i,
        {
            proof {
                lemma_enc_code_prefix(instructions@, i as int);
            }
            let offset = code.out.len();
            code.render_instruction(&instructions[i], offset);
            i = i + 1;
        }
        proof {
            assert(instructions@.subrange(0, instructions@.len() as int) =~= instructions@);
        }
        self.write_u32(code.out.len() as u32);
        self.write_n(&code.out);
    }

    /// Renders one instruction whose opcode sits at `offset` in the code array.
    #[verifier::spinoff_prover]
    pub fn render_instruction(&mut self, instruction: &Instruction, offset: usize)
        ensures
            final(self).out@ == old(self).out@ + spec_encode_instruction(*instruction, offset as nat),
    {
        let ghost s0 = self.out@;
        match instruction {
            Instruction::PADDED_INSTRUCTION(n) => {
                self.write_zeros(*n);
                return;
            },
            _ => {},
        }
        self.write_u8(instruction.opcode());
        match instruction {
            Instruction::ALOAD(x) => self.write_u8(*x),
            Instruction::ASTORE(x) => self.write_u8(*x),
            Instruction::BIPUSH(x) => self.write_u8(*x),
            Instruction::DLOAD(x) => self.write_u8(*x),
            Instruction::DSTORE(x) => self.write_u8(*x),
            Instruction::FLOAD(x) => self.write_u8(*x),
            Instruction::FSTORE(x) => self.write_u8(*x),
            Instruction::ILOAD(x) => self.write_u8(*x),
            Instruction::ISTORE(x) => self.write_u8(*x),
            Instruction::LDC(x) => self.write_u8(*x),
            Instruction::LLOAD(x) => self.write_u8(*x),
            Instruction::LSTORE(x) => self.write_u8(*x),
            Instruction::NEWARRAY(x) => self.write_u8(*x),
            Instruction::RET(x) => self.write_u8(*x),
            Instruction::ANEWARRAY(x) => self.write_u16(*x),
            Instruction::CHECKCAST(x) => self.write_u16(*x),
            Instruction::GETFIELD(x) => self.write_u16(*x),
            Instruction::GETSTATIC(x) => self.write_u16(*x),
            Instruction::INSTANCEOF(x) => self.write_u16(*x),
            Instruction::INVOKESPECIAL(x) => self.write_u16(*x),
            Instruction::INVOKESTATIC(x) => self.write_u16(*x),
            Instruction::INVOKEVIRTUAL(x) => self.write_u16(*x),
            Instruction::LDC_W(x) => self.write_u16(*x),
            Instruction::LDC2_W(x) => self.write_u16(*x),
            Instruction::NEW(x) => self.write_u16(*x),
            Instruction::PUTFIELD(x) => self.write_u16(*x),
            Instruction::PUTSTATIC(x) => self.write_u16(*x),
            Instruction::SIPUSH(x) => self.write_u16(*x),
            Instruction::GOTO(x) => self.write_u16(*x as u16),
            Instruction::IF_ACMPEQ(x) => self.write_u16(*x as u16),
            Instruction::IF_ACMPNE(x) => self.write_u16(*x as u16),
            Instruction::IF_ICMPEQ(x) => self.write_u16(*x as u16),
            Instruction::IF_ICMPNE(x) => self.write_u16(*x as u16),
            Instruction::IF_ICMPLT(x) => self.write_u16(*x as u16),
            Instruction::IF_ICMPGE(x) => self.write_u16(*x as u16),
            Instruction::IF_ICMPGT(x) => self.write_u16(*x as u16),
            Instruction::IF_ICMPLE(x) => self.write_u16(*x as u16),
            Instruction::IFEQ(x) => self.write_u16(*x as u16),
            Instruction::IFNE(x) => self.write_u16(*x as u16),
            Instruction::IFLT(x) => self.write_u16(*x as u16),
            Instruction::IFGE(x) => self.write_u16(*x as u16),
            Instruction::IFGT(x) => self.write_u16(*x as u16),
            Instruction::IFLE(x) => self.write_u16(*x as u16),
            Instruction::IFNONNULL(x) => self.write_u16(*x as u16),
            Instruction::IFNULL(x) => self.write_u16(*x as u16),
            Instruction::JSR(x) => self.write_u16(*x as u16),
            Instruction::GOTO_W(x) => self.write_u32(*x as u32),
            Instruction::JSR_W(x) => self.write_u32(*x as u32),
            Instruction::IINC(x, c) => {
                self.write_u8(*x);
                self.write_u8(*c as u8);
            },
            Instruction::INVOKEDYNAMIC(x) => {
                self.write_u16(*x);
                self.write_u8(0);
                self.write_u8(0);
            },
            Instruction::INVOKEINTERFACE(x, n) => {
                self.write_u16(*x);
                self.write_u8(*n);
                self.write_u8(0);
            },
            Instruction::MULTIANEWARRAY(x, d) => {
                self.write_u16(*x);
                self.write_u8(*d);
            },
            Instruction::LOOKUPSWITCH(dflt, pairs) => {
                self.write_zeros(crate::instruction::padding_at(offset));
                self.write_u32(*dflt as u32);
                self.write_u32(pairs.len() as u32);
                let ghost start = self.out@;
                let mut i: usize = 0;
                while i < pairs.len()
                    invariant
                        0 <= i <= pairs@.len(),
                        self.out@ == start + crate::instruction::pair_bytes(pairs@.subrange(0, i as int)),
                    decreases pairs@.len() - i,
                {
                    proof {
                        assert(pairs@.subrange(0, i as int + 1).drop_last() =~= pairs@.subrange(0, i as int));
                    }
                    self.write_u32(pairs[i].0 as u32);
                    self.write_u32(pairs[i].1 as u32);
                    i = i + 1;
                }
                proof {
                    assert(pairs@.subrange(0, pairs@.len() as int) =~= pairs@);
                }
            },
            Instruction::TABLESWITCH(dflt, low, high, targets) => {
                self.write_zeros(crate::instruction::padding_at(offset));
                self.write_u32(*dflt as u32);
                self.write_u32(*low as u32);
                self.write_u32(*high as u32);
                let ghost start = self.out@;
                let mut i: usize = 0;
                while i < targets.len()
                    invariant
                        0 <= i <= targets@.len(),
                        self.out@ == start + crate::instruction::i32_bytes(targets@.subrange(0, i as int)),
                    decreases targets@.len() - i,
                {
                    proof {
                        assert(targets@.subrange(0, i as int + 1).drop_last() =~= targets@.subrange(0, i as int));
                    }
                    self.write_u32(targets[i] as u32);
                    i = i + 1;
                }
                proof {
                    assert(targets@.subrange(0, targets@.len() as int) =~= targets@);
                }
            },
            Instruction::ILOAD_W(x) => {
                self.write_u8(0x15);
                self.write_u16(*x);
            },
            Instruction::FLOAD_W(x) => {
                self.write_u8(0x17);
                self.write_u16(*x);
            },
            Instruction::ALOAD_W(x) => {
                self.write_u8(0x19);
                self.write_u16(*x);
            },
            Instruction::LLOAD_W(x) => {
                self.write_u8(0x16);
                self.write_u16(*x);
            },
            Instruction::DLOAD_W(x) => {
                self.write_u8(0x18);
                self.write_u16(*x);
            },
            Instruction::ISTORE_W(x) => {
                self.write_u8(0x36);
                self.write_u16(*x);
            },
            Instruction::FSTORE_W(x) => {
                self.write_u8(0x38);
                self.write_u16(*x);
            },
            Instruction::ASTORE_W(x) => {
                self.write_u8(0x3a);
                self.write_u16(*x);
            },
            Instruction::LSTORE_W(x) => {
                self.write_u8(0x37);
                self.write_u16(*x);
            },
            Instruction::DSTORE_W(x) => {
                self.write_u8(0x39);
                self.write_u16(*x);
            },
            Instruction::RET_W(x) => {
                self.write_u8(0xa9);
                self.write_u16(*x);
            },
            Instruction::IINC_W(x, c) => {
                self.write_u8(0x84);
                self.write_u16(*x);
                self.write_u16(*c as u16);
            },
            _ => {},
        }
        proof {
            assert(self.out@ =~= s0 + spec_encode_instruction(*instruction, offset as nat));
        }
    }

    fn write_zeros(&mut self, n: usize)
        ensures
            final(self).out@ == old(self).out@ + zeros(n as nat),
    {
        let ghost s0 = self.out@;
        let mut i: usize = 0;
        while i < n
            invariant
                0 <= i <= n,
                self.out@ == s0 + zeros(i as nat),
            decreases n - i,
        {
            self.out.push(0);
            i = i + 1;
            proof {
                assert(self.out@ =~= s0 + zeros(i as nat));
            }
        }
    }

    pub fn write_n(&mut self, bytes: &Vec<u8>)
        ensures
            final(self).out@ == old(self).out@ + bytes@,
    {
        let ghost s0 = self.out@;
        let mut i: usize = 0;
        while i < bytes.len()
            invariant
                0 <= i <= bytes@.len(),
                self.out@ == s0 + bytes@.subrange(0, i as int),
            decreases bytes@.len() - i,
        {
            self.out.push(bytes[i]);
            i = i + 1;
            proof {
                assert(self.out@ =~= s0 + bytes@.subrange(0, i as int));
            }
        }
        proof {
            assert(bytes@.subrange(0, bytes@.len() as int) =~= bytes@);
        }
    }

    pub fn write_u64(&mut self, value: u64)
        ensures
            final(self).out@ == old(self).out@ + be64(value),
    {
        let ghost s0 = self.out@;
        self.write_u32((value >> 32) as u32);
        self.write_u32((value & 0xffff_ffff) as u32);
        proof {
            assert(self.out@ =~= s0 + be64(value));
        }
    }

    pub fn write_u32(&mut self, value: u32)
        ensures
            final(self).out@ == old(self).out@ + be32(value),
    {
        let ghost s0 = self.out@;
        self.out.push((value >> 24) as u8);
        self.out.push(((value >> 16) & 0xff) as u8);
        self.out.push(((value >> 8) & 0xff) as u8);
        self.out.push((value & 0xff) as u8);
        proof {
            assert(self.out@ =~= s0 + be32(value));
        }
    }

    pub fn write_u16(&mut self, value: u16)
        ensures
            final(self).out@ == old(self).out@ + be16(value),
    {
        let ghost s0 = self.out@;
        self.out.push((value >> 8) as u8);
        self.out.push((value & 0xff) as u8);
        proof {
            assert(self.out@ =~= s0 + be16(value));
        }
    }

    pub fn write_u8(&mut self, value: u8)
        ensures
            final(self).out@ == old(self).out@ + seq![value],
    {
        let ghost s0 = self.out@;
        self.out.push(value);
        proof {
            assert(self.out@ =~= s0 + seq![value]);
        }
    }
}

/// The structural kind of an attribute that is not raw.
pub fn attribute_kind_of(a: &Attribute) -> (r: K)
    requires
        !(a is RawAttribute),
    ensures
        attribute_kind(*a) == Some(r),
{
    match a {
        Attribute::ConstantValue(..) => K::ConstantValue,
        Attribute::Code { .. } => K::Code,
        Attribute::StackMapTable(..) => K::StackMapTable,
        Attribute::Exceptions(..) => K::Exceptions,
        Attribute::InnerClasses(..) => K::InnerClasses,
        Attribute::EnclosingMethod { .. } => K::EnclosingMethod,
        Attribute::Synthetic => K::Synthetic,
        Attribute::Signature(..) => K::Signature,
        Attribute::SourceFile(..) => K::SourceFile,
        Attribute::SourceDebugExtension(..) => K::SourceDebugExtension,
        Attribute::LineNumberTable(..) => K::LineNumberTable,
        Attribute::LocalVariableTable(..) => K::LocalVariableTable,
        Attribute::LocalVariableTypeTable(..) => K::LocalVariableTypeTable,
        Attribute::Deprecated => K::Deprecated,
        Attribute::RuntimeVisibleAnnotations(..) => K::RuntimeVisibleAnnotations,
        Attribute::RuntimeInvisibleAnnotations(..) => K::RuntimeInvisibleAnnotations,
        Attribute::RuntimeVisibleParameterAnnotations(..) => K::RuntimeVisibleParameterAnnotations,
        Attribute::RuntimeInvisibleParameterAnnotations(..) => K::RuntimeInvisibleParameterAnnotations,
        Attribute::RuntimeVisibleTypeAnnotations(..) => K::RuntimeVisibleTypeAnnotations,
        Attribute::RuntimeInvisibleTypeAnnotations(..) => K::RuntimeInvisibleTypeAnnotations,
        Attribute::AnnotationDefault(..) => K::AnnotationDefault,
        Attribute::BootstrapMethods(..) => K::BootstrapMethods,
        Attribute::MethodParameters(..) => K::MethodParameters,
        Attribute::RawAttribute { .. } => {
            proof {
                assert(false);
            }
            K::Synthetic
        },
    }
}

impl StackMapFrame {
    /// Number of bytes this frame takes in a stack map table.
    pub fn len(&self) -> (r: usize)
        ensures
            r == enc_frame(*self).len(),
    {
        let mut w = ClassWriter::new();
        w.write_stack_map_frame(self);
        w.out.len()
    }
}

impl VerificationType {
    /// Number of bytes this verification type takes.
    pub fn len(&self) -> (r: usize)
        ensures
            r == enc_vtype(*self).len(),
    {
        let mut w = ClassWriter::new();
        w.write_verification_type(self);
        w.out.len()
    }
}

impl Annotation {
    /// Number of bytes this annotation takes.
    pub fn len(&self) -> (r: usize)
        ensures
            r == enc_annotation(*self).len(),
    {
        let mut w = ClassWriter::new();
        w.write_annotation(self);
        w.out.len()
    }
}

impl ElementValuePair {
    /// Number of bytes this pair takes: its name index and its value.
    pub fn len(&self) -> (r: usize)
        ensures
            r == (idx16(self.element_name_index) + enc_element_value(self.value)).len(),
    {
        let mut w = ClassWriter::new();
        w.write_element_value_pair(self);
        w.out.len()
    }
}

impl ElementValue {
    /// Number of bytes this element value takes, its tag included.
    pub fn len(&self) -> (r: usize)
        ensures
            r == enc_element_value(*self).len(),
    {
        let mut w = ClassWriter::new();
        w.write_element_value(self);
        w.out.len()
    }
}

impl TypeAnnotation {
    /// Number of bytes this type annotation takes.
    pub fn len(&self) -> (r: usize)
        ensures
            r == enc_type_annotation(*self).len(),
    {
        let mut w = ClassWriter::new();
        w.write_type_annotation(self);
        w.out.len()
    }
}

impl TargetInfo {
    /// Number of bytes of this target after its target-type byte.
    pub fn len(&self) -> (r: usize)
        ensures
            r == enc_target(*self).len(),
    {
        let mut w = ClassWriter::new();
        w.write_target(self);
        w.out.len()
    }
}

impl TypePath {
    /// Number of bytes this path takes: its length byte and two bytes a step.
    pub fn len(&self) -> (r: usize)
        requires
            1 + 2 * self.path@.len() <= usize::MAX,
        ensures
            r == 1 + 2 * self.path@.len(),
    {
        1 + 2 * self.path.len()
    }
}

impl MethodParameter {
    /// Number of bytes this method parameter takes.
    pub fn len(&self) -> (r: usize)
        ensures
            r == enc_method_parameter(*self).len(),
    {
        4
    }
}

} // verus!
