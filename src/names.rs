//! The names of the attribute kinds that the codec decodes structurally.
use vstd::prelude::*;

verus! {

/// The attribute kinds with a structural form, by name.
#[derive(Clone, Copy, PartialEq, Eq, Structural, Debug)]
pub enum AttributeKind {
    ConstantValue,
    Code,
    StackMapTable,
    Exceptions,
    InnerClasses,
    EnclosingMethod,
    Synthetic,
    Signature,
    SourceFile,
    SourceDebugExtension,
    LineNumberTable,
    LocalVariableTable,
    LocalVariableTypeTable,
    Deprecated,
    RuntimeVisibleAnnotations,
    RuntimeInvisibleAnnotations,
    RuntimeVisibleParameterAnnotations,
    RuntimeInvisibleParameterAnnotations,
    RuntimeVisibleTypeAnnotations,
    RuntimeInvisibleTypeAnnotations,
    AnnotationDefault,
    BootstrapMethods,
    MethodParameters,
}

/// The utf8 bytes of an attribute kind's name.
pub open spec fn kind_name(k: AttributeKind) -> Seq<u8> {
    match k {
        AttributeKind::ConstantValue => seq![67u8, 111u8, 110u8, 115u8, 116u8, 97u8, 110u8, 116u8, 86u8, 97u8, 108u8, 117u8, 101u8],
        AttributeKind::Code => seq![67u8, 111u8, 100u8, 101u8],
        AttributeKind::StackMapTable => seq![83u8, 116u8, 97u8, 99u8, 107u8, 77u8, 97u8, 112u8, 84u8, 97u8, 98u8, 108u8, 101u8],
        AttributeKind::Exceptions => seq![69u8, 120u8, 99u8, 101u8, 112u8, 116u8, 105u8, 111u8, 110u8, 115u8],
        AttributeKind::InnerClasses => seq![73u8, 110u8, 110u8, 101u8, 114u8, 67u8, 108u8, 97u8, 115u8, 115u8, 101u8, 115u8],
        AttributeKind::EnclosingMethod => seq![69u8, 110u8, 99u8, 108u8, 111u8, 115u8, 105u8, 110u8, 103u8, 77u8, 101u8, 116u8, 104u8, 111u8, 100u8],
        AttributeKind::Synthetic => seq![83u8, 121u8, 110u8, 116u8, 104u8, 101u8, 116u8, 105u8, 99u8],
        AttributeKind::Signature => seq![83u8, 105u8, 103u8, 110u8, 97u8, 116u8, 117u8, 114u8, 101u8],
        AttributeKind::SourceFile => seq![83u8, 111u8, 117u8, 114u8, 99u8, 101u8, 70u8, 105u8, 108u8, 101u8],
        AttributeKind::SourceDebugExtension => seq![83u8, 111u8, 117u8, 114u8, 99u8, 101u8, 68u8, 101u8, 98u8, 117u8, 103u8, 69u8, 120u8, 116u8, 101u8, 110u8, 115u8, 105u8, 111u8, 110u8],
        AttributeKind::LineNumberTable => seq![76u8, 105u8, 110u8, 101u8, 78u8, 117u8, 109u8, 98u8, 101u8, 114u8, 84u8, 97u8, 98u8, 108u8, 101u8],
        AttributeKind::LocalVariableTable => seq![76u8, 111u8, 99u8, 97u8, 108u8, 86u8, 97u8, 114u8, 105u8, 97u8, 98u8, 108u8, 101u8, 84u8, 97u8, 98u8, 108u8, 101u8],
        AttributeKind::LocalVariableTypeTable => seq![76u8, 111u8, 99u8, 97u8, 108u8, 86u8, 97u8, 114u8, 105u8, 97u8, 98u8, 108u8, 101u8, 84u8, 121u8, 112u8, 101u8, 84u8, 97u8, 98u8, 108u8, 101u8],
        AttributeKind::Deprecated => seq![68u8, 101u8, 112u8, 114u8, 101u8, 99u8, 97u8, 116u8, 101u8, 100u8],
        AttributeKind::RuntimeVisibleAnnotations => seq![82u8, 117u8, 110u8, 116u8, 105u8, 109u8, 101u8, 86u8, 105u8, 115u8, 105u8, 98u8, 108u8, 101u8, 65u8, 110u8, 110u8, 111u8, 116u8, 97u8, 116u8, 105u8, 111u8, 110u8, 115u8],
        AttributeKind::RuntimeInvisibleAnnotations => seq![82u8, 117u8, 110u8, 116u8, 105u8, 109u8, 101u8, 73u8, 110u8, 118u8, 105u8, 115u8, 105u8, 98u8, 108u8, 101u8, 65u8, 110u8, 110u8, 111u8, 116u8, 97u8, 116u8, 105u8, 111u8, 110u8, 115u8],
        AttributeKind::RuntimeVisibleParameterAnnotations => seq![82u8, 117u8, 110u8, 116u8, 105u8, 109u8, 101u8, 86u8, 105u8, 115u8, 105u8, 98u8, 108u8, 101u8, 80u8, 97u8, 114u8, 97u8, 109u8, 101u8, 116u8, 101u8, 114u8, 65u8, 110u8, 110u8, 111u8, 116u8, 97u8, 116u8, 105u8, 111u8, 110u8, 115u8],
        AttributeKind::RuntimeInvisibleParameterAnnotations => seq![82u8, 117u8, 110u8, 116u8, 105u8, 109u8, 101u8, 73u8, 110u8, 118u8, 105u8, 115u8, 105u8, 98u8, 108u8, 101u8, 80u8, 97u8, 114u8, 97u8, 109u8, 101u8, 116u8, 101u8, 114u8, 65u8, 110u8, 110u8, 111u8, 116u8, 97u8, 116u8, 105u8, 111u8, 110u8, 115u8],
        AttributeKind::RuntimeVisibleTypeAnnotations => seq![82u8, 117u8, 110u8, 116u8, 105u8, 109u8, 101u8, 86u8, 105u8, 115u8, 105u8, 98u8, 108u8, 101u8, 84u8, 121u8, 112u8, 101u8, 65u8, 110u8, 110u8, 111u8, 116u8, 97u8, 116u8, 105u8, 111u8, 110u8, 115u8],
        AttributeKind::RuntimeInvisibleTypeAnnotations => seq![82u8, 117u8, 110u8, 116u8, 105u8, 109u8, 101u8, 73u8, 110u8, 118u8, 105u8, 115u8, 105u8, 98u8, 108u8, 101u8, 84u8, 121u8, 112u8, 101u8, 65u8, 110u8, 110u8, 111u8, 116u8, 97u8, 116u8, 105u8, 111u8, 110u8, 115u8],
        AttributeKind::AnnotationDefault => seq![65u8, 110u8, 110u8, 111u8, 116u8, 97u8, 116u8, 105u8, 111u8, 110u8, 68u8, 101u8, 102u8, 97u8, 117u8, 108u8, 116u8],
        AttributeKind::BootstrapMethods => seq![66u8, 111u8, 111u8, 116u8, 115u8, 116u8, 114u8, 97u8, 112u8, 77u8, 101u8, 116u8, 104u8, 111u8, 100u8, 115u8],
        AttributeKind::MethodParameters => seq![77u8, 101u8, 116u8, 104u8, 111u8, 100u8, 80u8, 97u8, 114u8, 97u8, 109u8, 101u8, 116u8, 101u8, 114u8, 115u8],
    }
}

/// The utf8 bytes of an attribute kind's name.
pub fn kind_name_bytes(k: AttributeKind) -> (r: Vec<u8>)
    ensures
        r@ == kind_name(k),
{
    match k {
        AttributeKind::ConstantValue => vec![67u8, 111u8, 110u8, 115u8, 116u8, 97u8, 110u8, 116u8, 86u8, 97u8, 108u8, 117u8, 101u8],
        AttributeKind::Code => vec![67u8, 111u8, 100u8, 101u8],
        AttributeKind::StackMapTable => vec![83u8, 116u8, 97u8, 99u8, 107u8, 77u8, 97u8, 112u8, 84u8, 97u8, 98u8, 108u8, 101u8],
        AttributeKind::Exceptions => vec![69u8, 120u8, 99u8, 101u8, 112u8, 116u8, 105u8, 111u8, 110u8, 115u8],
        AttributeKind::InnerClasses => vec![73u8, 110u8, 110u8, 101u8, 114u8, 67u8, 108u8, 97u8, 115u8, 115u8, 101u8, 115u8],
        AttributeKind::EnclosingMethod => vec![69u8, 110u8, 99u8, 108u8, 111u8, 115u8, 105u8, 110u8, 103u8, 77u8, 101u8, 116u8, 104u8, 111u8, 100u8],
        AttributeKind::Synthetic => vec![83u8, 121u8, 110u8, 116u8, 104u8, 101u8, 116u8, 105u8, 99u8],
        AttributeKind::Signature => vec![83u8, 105u8, 103u8, 110u8, 97u8, 116u8, 117u8, 114u8, 101u8],
        AttributeKind::SourceFile => vec![83u8, 111u8, 117u8, 114u8, 99u8, 101u8, 70u8, 105u8, 108u8, 101u8],
        AttributeKind::SourceDebugExtension => vec![83u8, 111u8, 117u8, 114u8, 99u8, 101u8, 68u8, 101u8, 98u8, 117u8, 103u8, 69u8, 120u8, 116u8, 101u8, 110u8, 115u8, 105u8, 111u8, 110u8],
        AttributeKind::LineNumberTable => vec![76u8, 105u8, 110u8, 101u8, 78u8, 117u8, 109u8, 98u8, 101u8, 114u8, 84u8, 97u8, 98u8, 108u8, 101u8],
        AttributeKind::LocalVariableTable => vec![76u8, 111u8, 99u8, 97u8, 108u8, 86u8, 97u8, 114u8, 105u8, 97u8, 98u8, 108u8, 101u8, 84u8, 97u8, 98u8, 108u8, 101u8],
        AttributeKind::LocalVariableTypeTable => vec![76u8, 111u8, 99u8, 97u8, 108u8, 86u8, 97u8, 114u8, 105u8, 97u8, 98u8, 108u8, 101u8, 84u8, 121u8, 112u8, 101u8, 84u8, 97u8, 98u8, 108u8, 101u8],
        AttributeKind::Deprecated => vec![68u8, 101u8, 112u8, 114u8, 101u8, 99u8, 97u8, 116u8, 101u8, 100u8],
        AttributeKind::RuntimeVisibleAnnotations => vec![82u8, 117u8, 110u8, 116u8, 105u8, 109u8, 101u8, 86u8, 105u8, 115u8, 105u8, 98u8, 108u8, 101u8, 65u8, 110u8, 110u8, 111u8, 116u8, 97u8, 116u8, 105u8, 111u8, 110u8, 115u8],
        AttributeKind::RuntimeInvisibleAnnotations => vec![82u8, 117u8, 110u8, 116u8, 105u8, 109u8, 101u8, 73u8, 110u8, 118u8, 105u8, 115u8, 105u8, 98u8, 108u8, 101u8, 65u8, 110u8, 110u8, 111u8, 116u8, 97u8, 116u8, 105u8, 111u8, 110u8, 115u8],
        AttributeKind::RuntimeVisibleParameterAnnotations => vec![82u8, 117u8, 110u8, 116u8, 105u8, 109u8, 101u8, 86u8, 105u8, 115u8, 105u8, 98u8, 108u8, 101u8, 80u8, 97u8, 114u8, 97u8, 109u8, 101u8, 116u8, 101u8, 114u8, 65u8, 110u8, 110u8, 111u8, 116u8, 97u8, 116u8, 105u8, 111u8, 110u8, 115u8],
        AttributeKind::RuntimeInvisibleParameterAnnotations => vec![82u8, 117u8, 110u8, 116u8, 105u8, 109u8, 101u8, 73u8, 110u8, 118u8, 105u8, 115u8, 105u8, 98u8, 108u8, 101u8, 80u8, 97u8, 114u8, 97u8, 109u8, 101u8, 116u8, 101u8, 114u8, 65u8, 110u8, 110u8, 111u8, 116u8, 97u8, 116u8, 105u8, 111u8, 110u8, 115u8],
        AttributeKind::RuntimeVisibleTypeAnnotations => vec![82u8, 117u8, 110u8, 116u8, 105u8, 109u8, 101u8, 86u8, 105u8, 115u8, 105u8, 98u8, 108u8, 101u8, 84u8, 121u8, 112u8, 101u8, 65u8, 110u8, 110u8, 111u8, 116u8, 97u8, 116u8, 105u8, 111u8, 110u8, 115u8],
        AttributeKind::RuntimeInvisibleTypeAnnotations => vec![82u8, 117u8, 110u8, 116u8, 105u8, 109u8, 101u8, 73u8, 110u8, 118u8, 105u8, 115u8, 105u8, 98u8, 108u8, 101u8, 84u8, 121u8, 112u8, 101u8, 65u8, 110u8, 110u8, 111u8, 116u8, 97u8, 116u8, 105u8, 111u8, 110u8, 115u8],
        AttributeKind::AnnotationDefault => vec![65u8, 110u8, 110u8, 111u8, 116u8, 97u8, 116u8, 105u8, 111u8, 110u8, 68u8, 101u8, 102u8, 97u8, 117u8, 108u8, 116u8],
        AttributeKind::BootstrapMethods => vec![66u8, 111u8, 111u8, 116u8, 115u8, 116u8, 114u8, 97u8, 112u8, 77u8, 101u8, 116u8, 104u8, 111u8, 100u8, 115u8],
        AttributeKind::MethodParameters => vec![77u8, 101u8, 116u8, 104u8, 111u8, 100u8, 80u8, 97u8, 114u8, 97u8, 109u8, 101u8, 116u8, 101u8, 114u8, 115u8],
    }
}

/// The attribute kind whose name is `name`, if any.
pub fn kind_of_name(name: &Vec<u8>) -> (r: Option<AttributeKind>)
    ensures
        r matches Some(k) ==> kind_name(k) == name@,
        r is None ==> forall|k: AttributeKind| kind_name(k) != name@,
{
    let all: Vec<AttributeKind> = vec![
        AttributeKind::ConstantValue, AttributeKind::Code, AttributeKind::StackMapTable, AttributeKind::Exceptions, AttributeKind::InnerClasses, AttributeKind::EnclosingMethod, AttributeKind::Synthetic, AttributeKind::Signature, AttributeKind::SourceFile, AttributeKind::SourceDebugExtension, AttributeKind::LineNumberTable, AttributeKind::LocalVariableTable, AttributeKind::LocalVariableTypeTable, AttributeKind::Deprecated, AttributeKind::RuntimeVisibleAnnotations, AttributeKind::RuntimeInvisibleAnnotations, AttributeKind::RuntimeVisibleParameterAnnotations, AttributeKind::RuntimeInvisibleParameterAnnotations, AttributeKind::RuntimeVisibleTypeAnnotations, AttributeKind::RuntimeInvisibleTypeAnnotations, AttributeKind::AnnotationDefault, AttributeKind::BootstrapMethods, AttributeKind::MethodParameters,
    ];
    assert forall|k: AttributeKind| #![trigger kind_name(k)] exists|j: int| 0 <= j < all@.len() && all@[j] == k by {
        match k {
            AttributeKind::ConstantValue => assert(all@[0] == k),
            AttributeKind::Code => assert(all@[1] == k),
            AttributeKind::StackMapTable => assert(all@[2] == k),
            AttributeKind::Exceptions => assert(all@[3] == k),
            AttributeKind::InnerClasses => assert(all@[4] == k),
            AttributeKind::EnclosingMethod => assert(all@[5] == k),
            AttributeKind::Synthetic => assert(all@[6] == k),
            AttributeKind::Signature => assert(all@[7] == k),
            AttributeKind::SourceFile => assert(all@[8] == k),
            AttributeKind::SourceDebugExtension => assert(all@[9] == k),
            AttributeKind::LineNumberTable => assert(all@[10] == k),
            AttributeKind::LocalVariableTable => assert(all@[11] == k),
            AttributeKind::LocalVariableTypeTable => assert(all@[12] == k),
            AttributeKind::Deprecated => assert(all@[13] == k),
            AttributeKind::RuntimeVisibleAnnotations => assert(all@[14] == k),
            AttributeKind::RuntimeInvisibleAnnotations => assert(all@[15] == k),
            AttributeKind::RuntimeVisibleParameterAnnotations => assert(all@[16] == k),
            AttributeKind::RuntimeInvisibleParameterAnnotations => assert(all@[17] == k),
            AttributeKind::RuntimeVisibleTypeAnnotations => assert(all@[18] == k),
            AttributeKind::RuntimeInvisibleTypeAnnotations => assert(all@[19] == k),
            AttributeKind::AnnotationDefault => assert(all@[20] == k),
            AttributeKind::BootstrapMethods => assert(all@[21] == k),
            AttributeKind::MethodParameters => assert(all@[22] == k),
        }
    }
    let mut i: usize = 0;
    while i < all.len()
        invariant
            0 <= i <= all@.len(),
            forall|j: int| 0 <= j < i ==> kind_name(#[trigger] all@[j]) != name@,
        decreases all@.len() - i,
    {
        let k = all[i];
        let candidate = kind_name_bytes(k);
        if bytes_equal(&candidate, name) {
            return Some(k);
        }
        i = i + 1;
    }
    None
}

/// Whether two byte strings are equal.
pub fn bytes_equal(a: &Vec<u8>, b: &Vec<u8>) -> (r: bool)
    ensures
        r == (a@ == b@),
{
    if a.len() != b.len() {
        return false;
    }
    let mut i: usize = 0;
    while i < a.len()
        invariant
            a@.len() == b@.len(),
            0 <= i <= a@.len(),
            forall|j: int| 0 <= j < i ==> a@[j] == b@[j],
        decreases a@.len() - i,
    {
        if a[i] != b[i] {
            return false;
        }
        i = i + 1;
    }
    assert(a@ =~= b@);
    true
}

} // verus!
