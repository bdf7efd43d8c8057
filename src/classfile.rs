//! The in-memory model of a class file: header, constant pool, members, attributes.
use vstd::prelude::*;
use crate::instruction::Instruction;
use vstd::utf8::{decode_utf8, valid_utf8};

verus! {

/// A class or interface definition: the whole content of one class file.
#[derive(Debug)]
pub struct Classfile {
    pub version: ClassfileVersion,
    pub constant_pool: ConstantPool,
    pub access_flags: AccessFlags,
    pub this_class: ConstantPoolIndex,
    pub super_class: ConstantPoolIndex,
    pub interfaces: Vec<ConstantPoolIndex>,
    pub fields: Vec<Field>,
    pub methods: Vec<Method>,
    pub attributes: Vec<Attribute>,
}

/// The default major version of a new class file.
pub const DEFAULT_MAJOR_VERSION: u16 = 52;

impl Classfile {
    /// An empty class file: default version, a pool holding only the reserved entry,
    /// no flags, no members and no attributes.
    pub fn new() -> (r: Classfile)
        ensures
            r.version.major_version == DEFAULT_MAJOR_VERSION,
            r.version.minor_version == 0,
            r.constant_pool.constants@.len() == 1,
            r.constant_pool.constants@[0] is Placeholder,
            r.access_flags.flags == 0,
            r.this_class.idx == 0,
            r.super_class.idx == 0,
            r.interfaces@.len() == 0,
            r.fields@.len() == 0,
            r.methods@.len() == 0,
            r.attributes@.len() == 0,
    {
        Classfile {
            version: ClassfileVersion::new(DEFAULT_MAJOR_VERSION, 0),
            constant_pool: ConstantPool::new(vec![Constant::Placeholder]),
            access_flags: AccessFlags::new(),
            this_class: ConstantPoolIndex::new(0),
            super_class: ConstantPoolIndex::new(0),
            interfaces: Vec::new(),
            fields: Vec::new(),
            methods: Vec::new(),
            attributes: Vec::new(),
        }
    }
}

/// A class-file version number.
#[derive(Debug, Clone, Copy, PartialEq, Eq, Structural)]
pub struct ClassfileVersion {
    pub minor_version: u16,
    pub major_version: u16,
}

impl ClassfileVersion {
    pub fn new(major_version: u16, minor_version: u16) -> (r: ClassfileVersion)
        ensures
            r.major_version == major_version,
            r.minor_version == minor_version,
    {
        ClassfileVersion { major_version, minor_version }
    }
}

/// The constant pool: an indexed table of constants. Index 0 is reserved, and each Long
/// and Double constant is followed by a placeholder entry, so that positions in `constants`
/// are the indices that the class file uses.
#[derive(Debug)]
pub struct ConstantPool {
    pub constants: Vec<Constant>,
}

/// Whether `c` is the utf8 constant holding `s`.
pub open spec fn is_utf8_of(c: Constant, s: Seq<u8>) -> bool {
    c matches Constant::Utf8(b) && b@ == s
}

/// `k` is the first index of the pool that holds the utf8 constant `s`.
pub open spec fn is_first_utf8(cs: Seq<Constant>, s: Seq<u8>, k: int) -> bool {
    &&& 0 <= k < cs.len()
    &&& is_utf8_of(cs[k], s)
    &&& forall|j: int| 0 <= j < k ==> !is_utf8_of(#[trigger] cs[j], s)
}

pub open spec fn has_utf8(cs: Seq<Constant>, s: Seq<u8>) -> bool {
    exists|k: int| 0 <= k < cs.len() && is_utf8_of(#[trigger] cs[k], s)
}

/// The first index of the utf8 constant `s` in the pool, or 0 where there is none.
pub open spec fn utf8_index(cs: Seq<Constant>, s: Seq<u8>) -> nat {
    if exists|k: int| is_first_utf8(cs, s, k) {
        (choose|k: int| is_first_utf8(cs, s, k)) as nat
    } else {
        0
    }
}

pub proof fn lemma_first_utf8_unique(cs: Seq<Constant>, s: Seq<u8>, k: int)
    requires
        is_first_utf8(cs, s, k),
    ensures
        utf8_index(cs, s) == k,
{
    let c = choose|k: int| is_first_utf8(cs, s, k);
    assert(is_first_utf8(cs, s, c));
    if c < k {
        assert(!is_utf8_of(cs[c], s));
    } else if k < c {
        assert(!is_utf8_of(cs[k], s));
    }
}

/// Without a utf8 constant `s`, its index is 0.
pub proof fn lemma_no_utf8(cs: Seq<Constant>, s: Seq<u8>)
    requires
        forall|j: int| 0 <= j < cs.len() ==> !is_utf8_of(#[trigger] cs[j], s),
    ensures
        utf8_index(cs, s) == 0,
        !has_utf8(cs, s),
{
}

/// The pool invariant: index 0 is the reserved placeholder, each Long and Double is
/// followed by a placeholder for its second slot, and every other placeholder follows one.
pub open spec fn pool_wf(cs: Seq<Constant>) -> bool {
    &&& cs.len() >= 1
    &&& cs[0] is Placeholder
    &&& forall|i: int| #![trigger cs[i]] 0 <= i < cs.len() && (cs[i] is Long || cs[i] is Double) ==> i + 1 < cs.len() && cs[i + 1] is Placeholder
    &&& forall|i: int| #![trigger cs[i]] 1 <= i < cs.len() && cs[i] is Placeholder ==> (cs[i - 1] is Long || cs[i - 1] is Double)
}

/// Relies on `String::from_utf8`: it accepts exactly the byte strings that are valid UTF-8,
/// and the string it makes holds the characters they encode.
#[verifier::external_body]
fn string_from_utf8(bytes: Vec<u8>) -> (r: Option<String>)
    ensures
        r is Some <==> valid_utf8(bytes@),
        r matches Some(s) ==> s@ == decode_utf8(bytes@),
{
    String::from_utf8(bytes).ok()
}

impl ConstantPool {
    pub fn new(constants: Vec<Constant>) -> (r: ConstantPool)
        ensures
            r.constants == constants,
    {
        ConstantPool { constants }
    }

    /// The bytes of the utf8 constant at `idx`, if the entry there is one.
    pub fn get_utf8(&self, idx: u16) -> (r: Option<&Vec<u8>>)
        ensures
            r matches Some(b) ==> (idx as int) < self.constants@.len() && self.constants@[idx as int] == Constant::Utf8(*b),
            r is None ==> !((idx as int) < self.constants@.len() && self.constants@[idx as int] is Utf8),
    {
        if (idx as usize) < self.constants.len() {
            match &self.constants[idx as usize] {
                Constant::Utf8(bytes) => Some(bytes),
                _ => None,
            }
        } else {
            None
        }
    }

    /// The utf8 constant at `idx` as a string, if the entry there is one and holds valid UTF-8.
    pub fn get_utf8_string(&self, idx: u16) -> (r: Option<String>)
        ensures
            r matches Some(s) ==> (idx as int) < self.constants@.len() && (self.constants@[idx as int] matches Constant::Utf8(b)
                && valid_utf8(b@) && s@ == decode_utf8(b@)),
            r is None ==> !((idx as int) < self.constants@.len() && (self.constants@[idx as int] matches Constant::Utf8(b) && valid_utf8(b@))),
    {
        match self.get_utf8(idx) {
            Some(bytes) => string_from_utf8(crate::rewriter::copy_bytes(bytes)),
            None => None,
        }
    }

    /// The first index that holds the utf8 constant `utf8`, if any.
    pub fn find_ut8_index(&self, utf8: &Vec<u8>) -> (r: Option<usize>)
        ensures
            r matches Some(k) ==> is_first_utf8(self.constants@, utf8@, k as int) && utf8_index(self.constants@, utf8@) == k,
            r is None ==> !has_utf8(self.constants@, utf8@) && utf8_index(self.constants@, utf8@) == 0,
    {
        let mut i: usize = 0;
        while i < self.constants.len()
            invariant
                0 <= i <= self.constants@.len(),
                forall|j: int| 0 <= j < i ==> !is_utf8_of(#[trigger] self.constants@[j], utf8@),
            decreases self.constants@.len() - i,
        {
            match &self.constants[i] {
                Constant::Utf8(bytes) => {
                    if crate::names::bytes_equal(bytes, utf8) {
                        proof {
                            lemma_first_utf8_unique(self.constants@, utf8@, i as int);
                        }
                        return Some(i);
                    }
                },
                _ => {},
            }
            i = i + 1;
        }
        proof {
            lemma_no_utf8(self.constants@, utf8@);
        }
        None
    }

    /// The first index that holds the utf8 constant `utf8`, or 0 where there is none.
    pub fn get_utf8_index(&self, utf8: &Vec<u8>) -> (r: usize)
        ensures
            r == utf8_index(self.constants@, utf8@),
    {
        match self.find_ut8_index(utf8) {
            Some(k) => k,
            None => 0,
        }
    }

    /// The constant at `idx`, if the pool is that long.
    pub fn resolve_index(&self, idx: &ConstantPoolIndex) -> (r: Option<&Constant>)
        ensures
            r matches Some(c) ==> idx.idx < self.constants@.len() && *c == self.constants@[idx.idx as int],
            r is None ==> idx.idx >= self.constants@.len(),
    {
        if idx.idx < self.constants.len() {
            Some(&self.constants[idx.idx])
        } else {
            None
        }
    }

    /// Number of entries, the reserved entry and placeholders included: the count that
    /// the class file states.
    pub fn cp_len(&self) -> (r: usize)
        ensures
            r == self.constants@.len(),
    {
        self.constants.len()
    }
}

/// An index into the constant pool.
#[derive(Debug, Clone, Copy, PartialEq, Eq, Structural)]
pub struct ConstantPoolIndex {
    pub idx: usize,
}

impl ConstantPoolIndex {
    pub fn new(idx: usize) -> (r: Self)
        ensures
            r.idx == idx,
    {
        ConstantPoolIndex { idx }
    }
}

/// One entry of the constant pool.
#[derive(Debug)]
pub enum Constant {
    Utf8(Vec<u8>),
    Integer(u32),
    Float(u32),
    Long(u64),
    Double(u64),
    Class(ConstantPoolIndex),
    FieldRef { class_index: ConstantPoolIndex, name_and_type_index: ConstantPoolIndex },
    MethodRef { class_index: ConstantPoolIndex, name_and_type_index: ConstantPoolIndex },
    InterfaceMethodRef { class_index: ConstantPoolIndex, name_and_type_index: ConstantPoolIndex },
    String(ConstantPoolIndex),
    NameAndType { name_index: ConstantPoolIndex, descriptor_index: ConstantPoolIndex },
    MethodHandle { reference_kind: ReferenceKind, reference_index: ConstantPoolIndex },
    MethodType(ConstantPoolIndex),
    InvokeDynamic { bootstrap_method_attr_index: ConstantPoolIndex, name_and_type_index: ConstantPoolIndex },
    Unknown(u8),
    Placeholder,
}

/// Number of pool slots that a constant occupies.
pub open spec fn spec_cp_size(c: Constant) -> nat {
    match c {
        Constant::Long(_) => 2,
        Constant::Double(_) => 2,
        Constant::Placeholder => 0,
        _ => 1,
    }
}

impl Constant {
    /// Number of pool slots this constant occupies: two for Long and Double, none for a
    /// placeholder, one otherwise.
    pub fn cp_size(&self) -> (r: usize)
        ensures
            r == spec_cp_size(*self),
    {
        match self {
            Constant::Long(_) => 2,
            Constant::Double(_) => 2,
            Constant::Placeholder => 0,
            _ => 1,
        }
    }
}

/// The kind of a method handle constant.
#[derive(Debug, Clone, Copy, PartialEq, Eq, Structural)]
pub enum ReferenceKind {
    GetField,
    GetStatic,
    PutField,
    PutStatic,
    InvokeVirtual,
    InvokeStatic,
    InvokeSpecial,
    NewInvokeSpecial,
    InvokeInterface,
    Unknown,
}

pub open spec fn spec_reference_kind_byte(k: ReferenceKind) -> u8 {
    match k {
        ReferenceKind::GetField => 1,
        ReferenceKind::GetStatic => 2,
        ReferenceKind::PutField => 3,
        ReferenceKind::PutStatic => 4,
        ReferenceKind::InvokeVirtual => 5,
        ReferenceKind::InvokeStatic => 6,
        ReferenceKind::InvokeSpecial => 7,
        ReferenceKind::NewInvokeSpecial => 8,
        ReferenceKind::InvokeInterface => 9,
        ReferenceKind::Unknown => 255,
    }
}

impl ReferenceKind {
    /// The kind of byte `value`: 1 to 9 name the nine kinds, anything else is `Unknown`.
    pub fn from_u8(value: u8) -> (r: ReferenceKind)
        ensures
            1 <= value <= 9 ==> spec_reference_kind_byte(r) == value,
            (1 <= value <= 9) == (r != ReferenceKind::Unknown),
    {
        match value {
            1 => ReferenceKind::GetField,
            2 => ReferenceKind::GetStatic,
            3 => ReferenceKind::PutField,
            4 => ReferenceKind::PutStatic,
            5 => ReferenceKind::InvokeVirtual,
            6 => ReferenceKind::InvokeStatic,
            7 => ReferenceKind::InvokeSpecial,
            8 => ReferenceKind::NewInvokeSpecial,
            9 => ReferenceKind::InvokeInterface,
            _ => ReferenceKind::Unknown,
        }
    }

    /// The byte of this kind; `Unknown` is 255.
    pub fn to_u8(&self) -> (r: u8)
        ensures
            r == spec_reference_kind_byte(*self),
    {
        match self {
            ReferenceKind::GetField => 1,
            ReferenceKind::GetStatic => 2,
            ReferenceKind::PutField => 3,
            ReferenceKind::PutStatic => 4,
            ReferenceKind::InvokeVirtual => 5,
            ReferenceKind::InvokeStatic => 6,
            ReferenceKind::InvokeSpecial => 7,
            ReferenceKind::NewInvokeSpecial => 8,
            ReferenceKind::InvokeInterface => 9,
            ReferenceKind::Unknown => 255,
        }
    }
}

/// A set of access flags, one bit each.
#[derive(Debug, Clone, Copy, PartialEq, Eq, Structural)]
pub struct AccessFlags {
    pub flags: u16,
}

impl AccessFlags {
    /// No flag set.
    pub fn new() -> (r: AccessFlags)
        ensures
            r.flags == 0,
    {
        AccessFlags::of(0)
    }

    pub fn of(val: u16) -> (r: AccessFlags)
        ensures
            r.flags == val,
    {
        AccessFlags { flags: val }
    }

    /// Whether any bit of `flag` is set.
    pub fn has_flag(&self, flag: u16) -> (r: bool)
        ensures
            r == (self.flags & flag != 0),
    {
        self.flags & flag != 0
    }

    pub fn set_flag(&mut self, flag: u16)
        ensures
            final(self).flags == old(self).flags | flag,
    {
        self.flags = self.flags | flag;
    }

    pub fn clear_flag(&mut self, flag: u16)
        ensures
            final(self).flags == old(self).flags & !flag,
    {
        self.flags = self.flags & !flag;
    }
}

/// The access flags of a class.
#[derive(Debug, Clone, Copy, PartialEq, Eq, Structural)]
pub enum ClassAccessFlags {
    Public,
    Final,
    Super,
    Interface,
    Abstract,
    Synthetic,
    Annotation,
    Enum,
}

impl ClassAccessFlags {
    /// The bit of this flag.
    pub fn bits(&self) -> (r: u16)
        ensures
            r == match *self {
                ClassAccessFlags::Public => 0x0001u16,
                ClassAccessFlags::Final => 0x0010u16,
                ClassAccessFlags::Super => 0x0020u16,
                ClassAccessFlags::Interface => 0x0200u16,
                ClassAccessFlags::Abstract => 0x0400u16,
                ClassAccessFlags::Synthetic => 0x1000u16,
                ClassAccessFlags::Annotation => 0x2000u16,
                ClassAccessFlags::Enum => 0x4000u16,
            },
    {
        match self {
            ClassAccessFlags::Public => 0x0001,
            ClassAccessFlags::Final => 0x0010,
            ClassAccessFlags::Super => 0x0020,
            ClassAccessFlags::Interface => 0x0200,
            ClassAccessFlags::Abstract => 0x0400,
            ClassAccessFlags::Synthetic => 0x1000,
            ClassAccessFlags::Annotation => 0x2000,
            ClassAccessFlags::Enum => 0x4000,
        }
    }
}

/// The access flags of a field.
#[derive(Debug, Clone, Copy, PartialEq, Eq, Structural)]
pub enum FieldAccessFlags {
    Public,
    Private,
    Protected,
    Static,
    Final,
    Volatile,
    Transient,
    Synthetic,
    Enum,
}

impl FieldAccessFlags {
    /// The bit of this flag.
    pub fn bits(&self) -> (r: u16)
        ensures
            r == match *self {
                FieldAccessFlags::Public => 0x0001u16,
                FieldAccessFlags::Private => 0x0002u16,
                FieldAccessFlags::Protected => 0x0004u16,
                FieldAccessFlags::Static => 0x0008u16,
                FieldAccessFlags::Final => 0x0010u16,
                FieldAccessFlags::Volatile => 0x0040u16,
                FieldAccessFlags::Transient => 0x0080u16,
                FieldAccessFlags::Synthetic => 0x1000u16,
                FieldAccessFlags::Enum => 0x4000u16,
            },
    {
        match self {
            FieldAccessFlags::Public => 0x0001,
            FieldAccessFlags::Private => 0x0002,
            FieldAccessFlags::Protected => 0x0004,
            FieldAccessFlags::Static => 0x0008,
            FieldAccessFlags::Final => 0x0010,
            FieldAccessFlags::Volatile => 0x0040,
            FieldAccessFlags::Transient => 0x0080,
            FieldAccessFlags::Synthetic => 0x1000,
            FieldAccessFlags::Enum => 0x4000,
        }
    }
}

/// The access flags of a method.
#[derive(Debug, Clone, Copy, PartialEq, Eq, Structural)]
pub enum MethodAccessFlags {
    Public,
    Private,
    Protected,
    Static,
    Final,
    Synchronized,
    Bridge,
    Varargs,
    Native,
    Abstract,
    Strict,
    Synthetic,
}

impl MethodAccessFlags {
    /// The bit of this flag.
    pub fn bits(&self) -> (r: u16)
        ensures
            r == match *self {
                MethodAccessFlags::Public => 0x0001u16,
                MethodAccessFlags::Private => 0x0002u16,
                MethodAccessFlags::Protected => 0x0004u16,
                MethodAccessFlags::Static => 0x0008u16,
                MethodAccessFlags::Final => 0x0010u16,
                MethodAccessFlags::Synchronized => 0x0020u16,
                MethodAccessFlags::Bridge => 0x0040u16,
                MethodAccessFlags::Varargs => 0x0080u16,
                MethodAccessFlags::Native => 0x0100u16,
                MethodAccessFlags::Abstract => 0x0400u16,
                MethodAccessFlags::Strict => 0x0800u16,
                MethodAccessFlags::Synthetic => 0x1000u16,
            },
    {
        match self {
            MethodAccessFlags::Public => 0x0001,
            MethodAccessFlags::Private => 0x0002,
            MethodAccessFlags::Protected => 0x0004,
            MethodAccessFlags::Static => 0x0008,
            MethodAccessFlags::Final => 0x0010,
            MethodAccessFlags::Synchronized => 0x0020,
            MethodAccessFlags::Bridge => 0x0040,
            MethodAccessFlags::Varargs => 0x0080,
            MethodAccessFlags::Native => 0x0100,
            MethodAccessFlags::Abstract => 0x0400,
            MethodAccessFlags::Strict => 0x0800,
            MethodAccessFlags::Synthetic => 0x1000,
        }
    }
}

/// The access flags of a inner class.
#[derive(Debug, Clone, Copy, PartialEq, Eq, Structural)]
pub enum InnerClassAccessFlags {
    Public,
    Private,
    Protected,
    Static,
    Final,
    Interface,
    Abstract,
    Synthetic,
    Annotation,
    Enum,
}

impl InnerClassAccessFlags {
    /// The bit of this flag.
    pub fn bits(&self) -> (r: u16)
        ensures
            r == match *self {
                InnerClassAccessFlags::Public => 0x0001u16,
                InnerClassAccessFlags::Private => 0x0002u16,
                InnerClassAccessFlags::Protected => 0x0004u16,
                InnerClassAccessFlags::Static => 0x0008u16,
                InnerClassAccessFlags::Final => 0x0010u16,
                InnerClassAccessFlags::Interface => 0x0200u16,
                InnerClassAccessFlags::Abstract => 0x0400u16,
                InnerClassAccessFlags::Synthetic => 0x1000u16,
                InnerClassAccessFlags::Annotation => 0x2000u16,
                InnerClassAccessFlags::Enum => 0x4000u16,
            },
    {
        match self {
            InnerClassAccessFlags::Public => 0x0001,
            InnerClassAccessFlags::Private => 0x0002,
            InnerClassAccessFlags::Protected => 0x0004,
            InnerClassAccessFlags::Static => 0x0008,
            InnerClassAccessFlags::Final => 0x0010,
            InnerClassAccessFlags::Interface => 0x0200,
            InnerClassAccessFlags::Abstract => 0x0400,
            InnerClassAccessFlags::Synthetic => 0x1000,
            InnerClassAccessFlags::Annotation => 0x2000,
            InnerClassAccessFlags::Enum => 0x4000,
        }
    }
}

/// The access flags of a method parameter.
#[derive(Debug, Clone, Copy, PartialEq, Eq, Structural)]
pub enum ParameterAccessFlags {
    Final,
    Synthetic,
    Mandated,
}

impl ParameterAccessFlags {
    /// The bit of this flag.
    pub fn bits(&self) -> (r: u16)
        ensures
            r == match *self {
                ParameterAccessFlags::Final => 0x0010u16,
                ParameterAccessFlags::Synthetic => 0x1000u16,
                ParameterAccessFlags::Mandated => 0x8000u16,
            },
    {
        match self {
            ParameterAccessFlags::Final => 0x0010,
            ParameterAccessFlags::Synthetic => 0x1000,
            ParameterAccessFlags::Mandated => 0x8000,
        }
    }
}

/// A field of a class.
#[derive(Debug)]
pub struct Field {
    pub access_flags: AccessFlags,
    pub name_index: ConstantPoolIndex,
    pub descriptor_index: ConstantPoolIndex,
    pub attributes: Vec<Attribute>,
}

/// A method of a class.
#[derive(Debug)]
pub struct Method {
    pub access_flags: AccessFlags,
    pub name_index: ConstantPoolIndex,
    pub descriptor_index: ConstantPoolIndex,
    pub attributes: Vec<Attribute>,
}

/// An attribute of a class, field, method or code attribute. `RawAttribute` keeps the name
/// index and the bytes of any attribute that has no structural form here.
#[derive(Debug)]
pub enum Attribute {
    ConstantValue(ConstantPoolIndex),
    Code {
        max_stack: u16,
        max_locals: u16,
        code: Vec<Instruction>,
        exception_table: Vec<ExceptionHandler>,
        attributes: Vec<Attribute>,
    },
    StackMapTable(Vec<StackMapFrame>),
    Exceptions(Vec<ConstantPoolIndex>),
    InnerClasses(Vec<InnerClass>),
    EnclosingMethod { class_index: ConstantPoolIndex, method_index: ConstantPoolIndex },
    Synthetic,
    Signature(ConstantPoolIndex),
    SourceFile(ConstantPoolIndex),
    SourceDebugExtension(Vec<u8>),
    LineNumberTable(Vec<LineNumberTable>),
    LocalVariableTable(Vec<LocalVariableTable>),
    LocalVariableTypeTable(Vec<LocalVariableTypeTable>),
    Deprecated,
    RuntimeVisibleAnnotations(Vec<Annotation>),
    RuntimeInvisibleAnnotations(Vec<Annotation>),
    RuntimeVisibleParameterAnnotations(Vec<Vec<Annotation>>),
    RuntimeInvisibleParameterAnnotations(Vec<Vec<Annotation>>),
    RuntimeVisibleTypeAnnotations(Vec<TypeAnnotation>),
    RuntimeInvisibleTypeAnnotations(Vec<TypeAnnotation>),
    AnnotationDefault(ElementValue),
    BootstrapMethods(Vec<BootstrapMethod>),
    MethodParameters(Vec<MethodParameter>),
    RawAttribute { name_index: ConstantPoolIndex, info: Vec<u8> },
}

/// One frame of a stack map table.
#[allow(inconsistent_fields)]
#[derive(Debug)]
pub enum StackMapFrame {
    SameFrame { tag: u8 },
    SameLocals1StackItemFrame { tag: u8, stack: VerificationType },
    SameLocals1StackItemFrameExtended { offset_delta: u16, stack: VerificationType },
    ChopFrame { tag: u8, offset_delta: u16 },
    SameFrameExtended { offset_delta: u16 },
    AppendFrame { tag: u8, offset_delta: u16, locals: Vec<VerificationType> },
    FullFrame { offset_delta: u16, locals: Vec<VerificationType>, stack: Vec<VerificationType> },
    FutureUse { tag: u8 },
}

/// The type of one local or stack entry in a stack map frame.
#[derive(Debug, Clone, Copy, PartialEq, Eq, Structural)]
pub enum VerificationType {
    Top,
    Integer,
    Float,
    Long,
    Double,
    Null,
    UninitializedThis,
    Object { cpool_index: ConstantPoolIndex },
    Uninitialized { offset: u16 },
}

/// An entry of a code attribute's exception table.
#[derive(Debug, Clone, Copy, PartialEq, Eq, Structural)]
pub struct ExceptionHandler {
    pub start_pc: u16,
    pub end_pc: u16,
    pub handler_pc: u16,
    pub catch_type: ConstantPoolIndex,
}

/// An entry of the inner-classes attribute.
#[derive(Debug, Clone, Copy, PartialEq, Eq, Structural)]
pub struct InnerClass {
    pub inner_class_info_index: ConstantPoolIndex,
    pub outer_class_info_index: ConstantPoolIndex,
    pub inner_name_index: ConstantPoolIndex,
    pub access_flags: AccessFlags,
}

/// An entry of the line-number table.
#[derive(Debug, Clone, Copy, PartialEq, Eq, Structural)]
pub struct LineNumberTable {
    pub start_pc: u16,
    pub line_number: u16,
}

/// An entry of the local-variable table.
#[derive(Debug, Clone, Copy, PartialEq, Eq, Structural)]
pub struct LocalVariableTable {
    pub start_pc: u16,
    pub length: u16,
    pub name_index: ConstantPoolIndex,
    pub descriptor_index: ConstantPoolIndex,
    pub index: u16,
}

/// An entry of the local-variable type table.
#[derive(Debug, Clone, Copy, PartialEq, Eq, Structural)]
pub struct LocalVariableTypeTable {
    pub start_pc: u16,
    pub length: u16,
    pub name_index: ConstantPoolIndex,
    pub signature_index: ConstantPoolIndex,
    pub index: u16,
}

/// An annotation: its type and its element-value pairs.
#[derive(Debug)]
pub struct Annotation {
    pub type_index: ConstantPoolIndex,
    pub element_value_pairs: Vec<ElementValuePair>,
}

#[derive(Debug)]
pub struct ElementValuePair {
    pub element_name_index: ConstantPoolIndex,
    pub value: ElementValue,
}

/// The value of an annotation element.
#[derive(Debug)]
pub enum ElementValue {
    ConstantValue(u8, ConstantPoolIndex),
    Enum { type_name_index: ConstantPoolIndex, const_name_index: ConstantPoolIndex },
    ClassInfo(ConstantPoolIndex),
    Annotation(Annotation),
    Array(Vec<ElementValue>),
}

/// An annotation on a use of a type.
#[derive(Debug)]
pub struct TypeAnnotation {
    pub target_info: TargetInfo,
    pub target_path: TypePath,
    pub type_index: ConstantPoolIndex,
    pub element_value_pairs: Vec<ElementValuePair>,
}

/// Where a type annotation applies, by target type.
#[allow(inconsistent_fields)]
#[derive(Debug)]
pub enum TargetInfo {
    TypeParameter { subtype: u8, idx: u8 },
    SuperType { idx: u16 },
    TypeParameterBound { subtype: u8, param_idx: u8, bound_index: u8 },
    Empty { subtype: u8 },
    MethodFormalParameter { idx: u8 },
    Throws { idx: u16 },
    LocalVar { subtype: u8, target: Vec<(u16, u16, u16)> },
    Catch { idx: u16 },
    Offset { subtype: u8, idx: u16 },
    TypeArgument { subtype: u8, offset: u16, type_arg_idx: u8 },
}

/// The target-type byte of a target.
pub open spec fn spec_target_type(t: TargetInfo) -> u8 {
    match t {
        TargetInfo::TypeParameter { subtype, .. } => subtype,
        TargetInfo::SuperType { .. } => 0x10,
        TargetInfo::TypeParameterBound { subtype, .. } => subtype,
        TargetInfo::Empty { subtype } => subtype,
        TargetInfo::MethodFormalParameter { .. } => 0x16,
        TargetInfo::Throws { .. } => 0x17,
        TargetInfo::LocalVar { subtype, .. } => subtype,
        TargetInfo::Catch { .. } => 0x42,
        TargetInfo::Offset { subtype, .. } => subtype,
        TargetInfo::TypeArgument { subtype, .. } => subtype,
    }
}

impl TargetInfo {
    /// The target-type byte that introduces this target.
    pub fn subtype(&self) -> (r: u8)
        ensures
            r == spec_target_type(*self),
    {
        match self {
            TargetInfo::TypeParameter { subtype, .. } => *subtype,
            TargetInfo::SuperType { .. } => 0x10,
            TargetInfo::TypeParameterBound { subtype, .. } => *subtype,
            TargetInfo::Empty { subtype } => *subtype,
            TargetInfo::MethodFormalParameter { .. } => 0x16,
            TargetInfo::Throws { .. } => 0x17,
            TargetInfo::LocalVar { subtype, .. } => *subtype,
            TargetInfo::Catch { .. } => 0x42,
            TargetInfo::Offset { subtype, .. } => *subtype,
            TargetInfo::TypeArgument { subtype, .. } => *subtype,
        }
    }
}

/// The path to the annotated part of a type.
#[derive(Debug)]
pub struct TypePath {
    pub path: Vec<(TypePathKind, u8)>,
}

#[derive(Debug, Clone, Copy, PartialEq, Eq, Structural)]
pub enum TypePathKind {
    Array,
    Nested,
    Wildcard,
    TypeArgument,
}

pub open spec fn spec_type_path_kind_value(k: TypePathKind) -> u8 {
    match k {
        TypePathKind::Array => 0,
        TypePathKind::Nested => 1,
        TypePathKind::Wildcard => 2,
        TypePathKind::TypeArgument => 3,
    }
}

impl TypePathKind {
    /// The byte of this path step kind.
    pub fn value(&self) -> (r: u8)
        ensures
            r == spec_type_path_kind_value(*self),
    {
        match self {
            TypePathKind::Array => 0,
            TypePathKind::Nested => 1,
            TypePathKind::Wildcard => 2,
            TypePathKind::TypeArgument => 3,
        }
    }
}

/// An entry of the bootstrap-methods attribute.
#[derive(Debug)]
pub struct BootstrapMethod {
    pub bootstrap_method_ref: ConstantPoolIndex,
    pub bootstrap_arguments: Vec<ConstantPoolIndex>,
}

/// An entry of the method-parameters attribute.
#[derive(Debug, Clone, Copy, PartialEq, Eq, Structural)]
pub struct MethodParameter {
    pub name_index: ConstantPoolIndex,
    pub access_flags: AccessFlags,
}

} // verus!
